//! Removing the checkout of a branch.

use crate::branches::{BranchEntry, BranchEntryV};
use crate::effects::{Effect, EffectV, TickChanges, TickChangesV};
use crate::event::{AppEvent, WorktreeRemovalOutcome};
use crate::git::scan::{contains_path, has_path};
use crate::git::{Worktree, WorktreeV};
use crate::path::{equal_paths, equivalent, same_path, same_place, PathBuf, PathRules};
use crate::pending_delete::{clear, cleared, is_removal_of, mark, marked, pending_from_file, still_pending, PendingWorktreeDelete, PendingWorktreeDeleteV};
use crate::screens::branch::{matches_repo, shows_repo, BranchContext, BranchContextV, BranchViewState, BranchViewV, OpenWorktreeLoadState, OpenWorktreeLoadStateV};
use crate::screens::repo::{copy_repo_at, find_repo, repo_at, RepoViewState, RepoViewV};
use crate::state::{AppState, AppStateV, Mode, ModeV};
use crate::state_store::{file_problem, usable_entries, SavedFile};
use crate::text::{concat, concat3, copy_optional_text, owned, same_text};
use crate::toasts::ToastKind;
use vstd::prelude::*;
use vstd::string::*;

verus! {

/// The checkout that is to be removed.
#[derive(Debug, PartialEq, Eq)]
pub struct DeleteWorktreeTarget {
    pub branch_name: String,
    pub worktree_path: PathBuf,
    pub open_workspace_id: Option<String>,
    pub force: bool,
    pub in_progress: bool,
}

#[verifier::ext_equal]
pub struct DeleteWorktreeTargetV {
    pub branch_name: Seq<char>,
    pub worktree_path: Seq<u8>,
    pub open_workspace_id: Option<Seq<char>>,
    pub force: bool,
    pub in_progress: bool,
}

impl DeepView for DeleteWorktreeTarget {
    type V = DeleteWorktreeTargetV;

    open spec fn deep_view(&self) -> DeleteWorktreeTargetV {
        DeleteWorktreeTargetV {
            branch_name: self.branch_name@,
            worktree_path: self.worktree_path@,
            open_workspace_id: self.open_workspace_id.deep_view(),
            force: self.force,
            in_progress: self.in_progress,
        }
    }
}

impl Clone for DeleteWorktreeTarget {
    fn clone(&self) -> (target: Self)
        ensures
            target.deep_view() == self.deep_view(),
    {
        DeleteWorktreeTarget {
            branch_name: self.branch_name.clone(),
            worktree_path: self.worktree_path.clone(),
            open_workspace_id: copy_optional_text(&self.open_workspace_id),
            force: self.force,
            in_progress: self.in_progress,
        }
    }
}

/// The question whether a checkout is to be removed.
#[derive(Debug, PartialEq, Eq)]
pub struct DeleteFlowState {
    pub context: BranchContext,
    pub target: DeleteWorktreeTarget,
}

#[verifier::ext_equal]
pub struct DeleteFlowV {
    pub context: BranchContextV,
    pub target: DeleteWorktreeTargetV,
}

impl DeepView for DeleteFlowState {
    type V = DeleteFlowV;

    open spec fn deep_view(&self) -> DeleteFlowV {
        DeleteFlowV { context: self.context.deep_view(), target: self.target.deep_view() }
    }
}

impl DeleteFlowState {
    pub fn new(context: BranchContext, target: DeleteWorktreeTarget) -> (flow: DeleteFlowState)
        ensures
            flow.deep_view() == (DeleteFlowV {
                context: context.deep_view(),
                target: target.deep_view(),
            }),
    {
        DeleteFlowState { context, target }
    }

    pub fn context(&self) -> (context: &BranchContext)
        ensures
            *context == self.context,
    {
        &self.context
    }

    pub fn in_progress(&self) -> (answer: bool)
        ensures
            answer == self.target.in_progress,
    {
        self.target.in_progress
    }
}

/// The removals that were started, and those that run now.
#[derive(Debug, PartialEq, Eq)]
pub struct DeleteState {
    pub pending: Vec<PendingWorktreeDelete>,
    pub in_flight: Vec<PathBuf>,
}

#[verifier::ext_equal]
pub struct DeleteStateV {
    pub pending: Seq<PendingWorktreeDeleteV>,
    pub in_flight: Seq<Seq<u8>>,
}

impl DeepView for DeleteState {
    type V = DeleteStateV;

    open spec fn deep_view(&self) -> DeleteStateV {
        DeleteStateV {
            pending: self.pending.deep_view(),
            in_flight: self.in_flight.deep_view(),
        }
    }
}

impl Default for DeleteState {
    fn default() -> (state: Self)
        ensures
            state.deep_view() == (DeleteStateV {
                pending: Seq::empty(),
                in_flight: Seq::empty(),
            }),
    {
        let state = DeleteState { pending: Vec::new(), in_flight: Vec::new() };
        assert(state.pending.deep_view() =~= Seq::empty());
        assert(state.in_flight.deep_view() =~= Seq::empty());
        state
    }
}

/// The removals of a repository that go on: not expired, and of a checkout that is there.
/// Removals of other repositories are left alone.
pub open spec fn reconciled(
    pending: Seq<PendingWorktreeDeleteV>,
    repo_path: Seq<u8>,
    checkouts: Seq<Seq<u8>>,
    now: u64,
    rules: PathRules,
) -> Seq<PendingWorktreeDeleteV>
    decreases pending.len(),
{
    if pending.len() == 0 {
        pending
    } else {
        let before = reconciled(pending.drop_last(), repo_path, checkouts, now, rules);
        let last = pending.last();
        if !same_path(last.repo_path, repo_path, rules) || !last.expired(now) && has_path(
            checkouts,
            last.worktree_path,
            rules,
        ) {
            before.push(last)
        } else {
            before
        }
    }
}

/// The paths of checkouts.
pub open spec fn checkout_paths(worktrees: Seq<WorktreeV>) -> Seq<Seq<u8>> {
    worktrees.map_values(|worktree: WorktreeV| worktree.path)
}

/// The checkouts of the repository at a path.
pub open spec fn checkouts_of(view: RepoViewV, repo_path: Seq<u8>) -> Seq<Seq<u8>> {
    let rules = view.path_rules;
    match repo_at(view.entries, repo_path, rules) {
        Some(repo) => checkout_paths(repo.worktrees),
        None => Seq::empty(),
    }
}

impl AppStateV {
    pub open spec fn with_pending(self, pending: Seq<PendingWorktreeDeleteV>) -> AppStateV {
        AppStateV { delete: DeleteStateV { pending, ..self.delete }, ..self }
    }

    /// The pending removals of a repository after its checkouts were listed.
    pub open spec fn reconciled(self, repo_path: Seq<u8>, now: u64) -> AppStateV {
        let rules = self.repo_view.path_rules;
        self.with_pending(
            reconciled(
                self.delete.pending,
                repo_path,
                checkouts_of(self.repo_view, repo_path),
                now,
                rules,
            ),
        )
    }
}

#[verifier::loop_isolation(false)]
fn paths_of_checkouts(worktrees: &Vec<Worktree>) -> (paths: Vec<PathBuf>)
    ensures
        paths.deep_view() == checkout_paths(worktrees.deep_view()),
{
    let mut paths: Vec<PathBuf> = Vec::new();
    let mut i: usize = 0;
    while i < worktrees.len()
        invariant
            i <= worktrees.len(),
            paths@.len() == i,
            forall|k: int| 0 <= k < i ==> (#[trigger] paths@[k])@ == worktrees@[k].path@,
        decreases worktrees.len() - i,
    {
        paths.push(worktrees[i].path.clone());
        i = i + 1;
    }
    assert(paths.deep_view() =~= checkout_paths(worktrees.deep_view()));
    paths
}

/// Drops the removals of a repository that do not go on. `true` where there was one, so that
/// the others are to be saved.
#[verifier::loop_isolation(false)]
pub fn reconcile_pending(state: &mut AppState, repo_path: &PathBuf, now: u64) -> (changed: bool)
    ensures
        final(state).deep_view() == old(state).deep_view().reconciled(repo_path@, now),
        changed == (final(state).delete.pending@.len() != old(state).delete.pending@.len()),
{
    let rules = state.repo_view.path_rules;
    let ghost start = state.deep_view();
    let ghost all = start.delete.pending;
    let active: Vec<PathBuf> = match find_repo(&state.repo_view.entries, repo_path, rules) {
        Some(place) => paths_of_checkouts(&state.repo_view.entries[place].repo.worktrees),
        None => Vec::new(),
    };
    let ghost checkouts = checkouts_of(start.repo_view, repo_path@);
    assert(active.deep_view() =~= checkouts);
    let before: usize = state.delete.pending.len();
    let mut kept: Vec<PendingWorktreeDelete> = Vec::new();
    let mut i: usize = 0;
    assert(kept.deep_view() =~= reconciled(all.take(0), repo_path@, checkouts, now, rules));
    while i < state.delete.pending.len()
        invariant
            i <= state.delete.pending.len(),
            state.deep_view() == start,
            kept.deep_view() == reconciled(all.take(i as int), repo_path@, checkouts, now, rules),
        decreases state.delete.pending.len() - i,
    {
        let ghost taken = kept.deep_view();
        let pending = &state.delete.pending[i];
        proof {
            assert(all.take(i + 1).drop_last() =~= all.take(i as int));
            assert(all[i as int] == pending.deep_view());
        }
        if !equal_paths(&pending.repo_path, repo_path, rules) || !pending.is_expired(now)
            && contains_path(&active, &pending.worktree_path, rules) {
            let entry = pending.clone();
            let ghost added = entry.deep_view();
            kept.push(entry);
            assert(kept.deep_view() =~= taken.push(added));
        }
        i = i + 1;
    }
    assert(all.take(all.len() as int) =~= all);
    let after: usize = kept.len();
    state.delete.pending = kept;
    assert(state.deep_view() =~= start.reconciled(repo_path@, now));
    before != after
}

/// Whether a row is the branch of a checkout.
pub open spec fn is_branch_at(entry: BranchEntryV, name: Seq<char>, path: Seq<u8>, rules: PathRules) -> bool {
    entry.name == name && entry.worktree_path is Some && same_path(entry.worktree_path->0, path, rules)
}

/// The first row with a name and a checkout.
pub open spec fn branch_at(entries: Seq<BranchEntryV>, name: Seq<char>, path: Seq<u8>, rules: PathRules) -> Option<
    BranchEntryV,
>
    decreases entries.len(),
{
    if entries.len() == 0 {
        None
    } else if is_branch_at(entries[0], name, path, rules) {
        Some(entries[0])
    } else {
        branch_at(entries.drop_first(), name, path, rules)
    }
}

fn find_branch_at<'a>(entries: &'a Vec<BranchEntry>, name: &str, path: &PathBuf, rules: PathRules) -> (found: Option<
    &'a BranchEntry,
>)
    ensures
        found.deep_view() == branch_at(entries.deep_view(), name@, path@, rules),
{
    let ghost all = entries.deep_view();
    let mut i: usize = 0;
    assert(all.skip(0) =~= all);
    while i < entries.len()
        invariant
            i <= entries.len(),
            all == entries.deep_view(),
            branch_at(all, name@, path@, rules) == branch_at(all.skip(i as int), name@, path@, rules),
        decreases entries.len() - i,
    {
        proof {
            assert(all.skip(i as int)[0] == entries@[i as int].deep_view());
            assert(all.skip(i as int).drop_first() =~= all.skip(i + 1));
        }
        let here = match &entries[i].worktree_path {
            Some(checkout) => equal_paths(checkout, path, rules),
            None => false,
        };
        if here && same_text(entries[i].name.as_str(), name) {
            return Some(&entries[i]);
        }
        i = i + 1;
    }
    assert(all.skip(i as int) =~= Seq::<BranchEntryV>::empty());
    None
}

/// The workspace that shows a branch, where one does.
pub open spec fn workspace_of(entry: Option<BranchEntryV>) -> Option<Seq<char>> {
    match entry {
        Some(branch) => branch.open_workspace_id,
        None => None,
    }
}

pub open spec fn with_workspace(flow: DeleteFlowV, workspace: Option<Seq<char>>) -> DeleteFlowV {
    DeleteFlowV {
        target: DeleteWorktreeTargetV { open_workspace_id: workspace, ..flow.target },
        ..flow
    }
}

impl AppStateV {
    /// The question with the workspace of its checkout taken from the rows.
    pub open spec fn open_state_refreshed(self) -> AppStateV {
        let rules = self.repo_view.path_rules;
        match self.mode {
            ModeV::ConfirmWorktreeDelete(flow) => AppStateV {
                mode: ModeV::ConfirmWorktreeDelete(
                    with_workspace(
                        flow,
                        workspace_of(
                            branch_at(
                                self.branch_view.entries,
                                flow.target.branch_name,
                                flow.target.worktree_path,
                                rules,
                            ),
                        ),
                    ),
                ),
                ..self
            },
            _ => self,
        }
    }
}

/// Takes the workspace of the checkout in question from the rows.
pub fn refresh_open_state(state: &mut AppState)
    ensures
        final(state).deep_view() == old(state).deep_view().open_state_refreshed(),
{
    let rules = state.repo_view.path_rules;
    let workspace: Option<String> = match &state.mode {
        Mode::ConfirmWorktreeDelete(flow) => match find_branch_at(
            &state.branch_view.entries,
            flow.target.branch_name.as_str(),
            &flow.target.worktree_path,
            rules,
        ) {
            Some(branch) => copy_optional_text(&branch.open_workspace_id),
            None => None,
        },
        _ => return,
    };
    if let Mode::ConfirmWorktreeDelete(flow) = &mut state.mode {
        flow.target.open_workspace_id = workspace;
    }
}

/// Whether the question is about a removal that runs.
pub open spec fn asks_about(
    mode: ModeV,
    repo_path: Seq<u8>,
    branch_name: Seq<char>,
    worktree_path: Seq<u8>,
    rules: PathRules,
) -> bool {
    match mode {
        ModeV::ConfirmWorktreeDelete(flow) => same_path(flow.context.repo_path, repo_path, rules)
            && flow.target.branch_name == branch_name && same_path(
            flow.target.worktree_path,
            worktree_path,
            rules,
        ) && flow.target.in_progress,
        _ => false,
    }
}

fn event_matches(
    state: &AppState,
    repo_path: &PathBuf,
    branch_name: &str,
    worktree_path: &PathBuf,
) -> (answer: bool)
    ensures
        answer == asks_about(state.deep_view().mode, repo_path@, branch_name@, worktree_path@, state.repo_view.path_rules),
{
    let rules = state.repo_view.path_rules;
    match &state.mode {
        Mode::ConfirmWorktreeDelete(flow) => equal_paths(&flow.context.repo_path, repo_path, rules)
            && same_text(flow.target.branch_name.as_str(), branch_name) && equal_paths(
            &flow.target.worktree_path,
            worktree_path,
            rules,
        ) && flow.target.in_progress,
        _ => false,
    }
}

/// The paths but one.
pub open spec fn without_path(paths: Seq<Seq<u8>>, path: Seq<u8>, rules: PathRules) -> Seq<Seq<u8>>
    decreases paths.len(),
{
    if paths.len() == 0 {
        paths
    } else {
        let before = without_path(paths.drop_last(), path, rules);
        if same_path(paths.last(), path, rules) {
            before
        } else {
            before.push(paths.last())
        }
    }
}

#[verifier::loop_isolation(false)]
fn remove_path(paths: &Vec<PathBuf>, path: &PathBuf, rules: PathRules) -> (kept: Vec<PathBuf>)
    ensures
        kept.deep_view() == without_path(paths.deep_view(), path@, rules),
{
    let ghost all = paths.deep_view();
    let mut kept: Vec<PathBuf> = Vec::new();
    let mut i: usize = 0;
    assert(kept.deep_view() =~= without_path(all.take(0), path@, rules));
    while i < paths.len()
        invariant
            i <= paths.len(),
            kept.deep_view() == without_path(all.take(i as int), path@, rules),
        decreases paths.len() - i,
    {
        let ghost before = kept.deep_view();
        proof {
            assert(all.take(i + 1).drop_last() =~= all.take(i as int));
            assert(all.take(i + 1).last() == paths@[i as int]@);
        }
        if !equal_paths(&paths[i], path, rules) {
            let other = paths[i].clone();
            let ghost added = other@;
            kept.push(other);
            assert(kept.deep_view() =~= before.push(added));
        }
        i = i + 1;
    }
    assert(all.take(all.len() as int) =~= all);
    kept
}

/// The first row with a name.
pub open spec fn branch_named(entries: Seq<BranchEntryV>, name: Seq<char>) -> Option<int>
    decreases entries.len(),
{
    if entries.len() == 0 {
        None
    } else {
        match branch_named(entries.drop_last(), name) {
            Some(place) => Some(place),
            None => if entries.last().name == name {
                Some(entries.len() - 1)
            } else {
                None
            },
        }
    }
}

proof fn lemma_branch_named_prefix(entries: Seq<BranchEntryV>, name: Seq<char>, count: int)
    requires
        0 <= count <= entries.len(),
        branch_named(entries.take(count), name) is Some,
    ensures
        branch_named(entries, name) == branch_named(entries.take(count), name),
    decreases entries.len(),
{
    if count == entries.len() {
        assert(entries.take(count) =~= entries);
    } else {
        assert(entries.drop_last().take(count) =~= entries.take(count));
        lemma_branch_named_prefix(entries.drop_last(), name, count);
    }
}

fn find_branch_named(entries: &Vec<BranchEntry>, name: &str) -> (place: Option<usize>)
    ensures
        match branch_named(entries.deep_view(), name@) {
            Some(at) => place is Some && place->0 as int == at && at < entries@.len(),
            None => place is None,
        },
{
    let ghost all = entries.deep_view();
    let mut i: usize = 0;
    while i < entries.len()
        invariant
            i <= entries.len(),
            all == entries.deep_view(),
            branch_named(all.take(i as int), name@) is None,
        decreases entries.len() - i,
    {
        proof {
            assert(all.take(i + 1).drop_last() =~= all.take(i as int));
            assert(all.take(i + 1).last() == entries@[i as int].deep_view());
        }
        if same_text(entries[i].name.as_str(), name) {
            proof {
                lemma_branch_named_prefix(all, name@, i + 1);
            }
            return Some(i);
        }
        i = i + 1;
    }
    assert(all.take(all.len() as int) =~= all);
    None
}

/// A checkout that is dirty: the question comes up again, and now it is about force.
pub open spec fn after_dirty(
    state: AppStateV,
    ours: bool,
    branch_name: Seq<char>,
    worktree_path: Seq<u8>,
) -> AppStateV {
    let rules = state.repo_view.path_rules;
    match state.mode {
        ModeV::ConfirmWorktreeDelete(flow) => if same_path(
            flow.target.worktree_path,
            worktree_path,
            rules,
        ) {
            AppStateV {
                mode: ModeV::ConfirmWorktreeDelete(
                    DeleteFlowV {
                        target: DeleteWorktreeTargetV {
                            force: true,
                            in_progress: false,
                            ..flow.target
                        },
                        ..flow
                    },
                ),
                ..state
            }
        } else {
            state
        },
        ModeV::BranchSelect(context) => if ours {
            AppStateV {
                mode: ModeV::ConfirmWorktreeDelete(
                    DeleteFlowV {
                        context,
                        target: DeleteWorktreeTargetV {
                            branch_name,
                            worktree_path,
                            open_workspace_id: match branch_named(
                                state.branch_view.entries,
                                branch_name,
                            ) {
                                Some(place) => state.branch_view.entries[place].open_workspace_id,
                                None => None,
                            },
                            force: true,
                            in_progress: false,
                        },
                    },
                ),
                ..state
            }
        } else {
            state
        },
        _ => state,
    }
}

fn handle_dirty(state: &mut AppState, ours: bool, branch_name: String, worktree_path: PathBuf)
    ensures
        final(state).deep_view() == after_dirty(
            old(state).deep_view(),
            ours,
            branch_name@,
            worktree_path@,
        ),
{
    let rules = state.repo_view.path_rules;
    let question: Option<DeleteFlowState> = match &state.mode {
        Mode::ConfirmWorktreeDelete(flow) => if equal_paths(
            &flow.target.worktree_path,
            &worktree_path,
            rules,
        ) {
            let mut target = flow.target.clone();
            target.force = true;
            target.in_progress = false;
            Some(DeleteFlowState::new(flow.context.clone(), target))
        } else {
            None
        },
        Mode::BranchSelect(context) => if ours {
            let open_workspace_id = match find_branch_named(
                &state.branch_view.entries,
                branch_name.as_str(),
            ) {
                Some(place) => copy_optional_text(
                    &state.branch_view.entries[place].open_workspace_id,
                ),
                None => None,
            };
            Some(
                DeleteFlowState::new(
                    context.clone(),
                    DeleteWorktreeTarget {
                        branch_name,
                        worktree_path,
                        open_workspace_id,
                        force: true,
                        in_progress: false,
                    },
                ),
            )
        } else {
            None
        },
        _ => None,
    };
    match question {
        Some(flow) => {
            state.mode = Mode::ConfirmWorktreeDelete(flow);
        },
        None => {},
    }
}

/// The checkouts but one.
pub open spec fn without_checkout(worktrees: Seq<WorktreeV>, path: Seq<u8>, rules: PathRules) -> Seq<WorktreeV>
    decreases worktrees.len(),
{
    if worktrees.len() == 0 {
        worktrees
    } else {
        let before = without_checkout(worktrees.drop_last(), path, rules);
        if same_path(worktrees.last().path, path, rules) {
            before
        } else {
            before.push(worktrees.last())
        }
    }
}

#[verifier::loop_isolation(false)]
fn drop_checkout(worktrees: &Vec<Worktree>, path: &PathBuf, rules: PathRules) -> (kept: Vec<Worktree>)
    ensures
        kept.deep_view() == without_checkout(worktrees.deep_view(), path@, rules),
{
    let ghost all = worktrees.deep_view();
    let mut kept: Vec<Worktree> = Vec::new();
    let mut i: usize = 0;
    assert(kept.deep_view() =~= without_checkout(all.take(0), path@, rules));
    while i < worktrees.len()
        invariant
            i <= worktrees.len(),
            kept.deep_view() == without_checkout(all.take(i as int), path@, rules),
        decreases worktrees.len() - i,
    {
        let ghost before = kept.deep_view();
        proof {
            assert(all.take(i + 1).drop_last() =~= all.take(i as int));
            assert(all.take(i + 1).last() == worktrees@[i as int].deep_view());
        }
        if !equal_paths(&worktrees[i].path, path, rules) {
            let other = worktrees[i].clone();
            let ghost added = other.deep_view();
            kept.push(other);
            assert(kept.deep_view() =~= before.push(added));
        }
        i = i + 1;
    }
    assert(all.take(all.len() as int) =~= all);
    kept
}

/// The list of repositories without a checkout of one of them.
pub open spec fn repos_without_checkout(
    view: RepoViewV,
    repo_path: Seq<u8>,
    worktree_path: Seq<u8>,
) -> RepoViewV {
    let rules = view.path_rules;
    match repo_at(view.entries, repo_path, rules) {
        Some(repo) => view.with_worktrees(
            repo_path,
            without_checkout(repo.worktrees, worktree_path, rules),
        ),
        None => view,
    }
}

/// The branch list while it is loaded anew after a checkout was removed.
pub open spec fn branches_without_checkout(view: BranchViewV, branch_name: Seq<char>) -> BranchViewV {
    BranchViewV {
        loading: true,
        open_worktrees: Seq::empty(),
        open_worktree_load_state: OpenWorktreeLoadStateV::Unknown,
        entries: match branch_named(view.entries, branch_name) {
            Some(place) => view.entries.update(
                place,
                BranchEntryV {
                    worktree_path: None,
                    open_workspace_id: None,
                    ..view.entries[place]
                },
            ),
            None => view.entries,
        },
        ..view.without_remotes()
    }
}

pub open spec fn with_warning(state: AppStateV, warning: Option<Seq<char>>) -> AppStateV {
    match warning {
        Some(message) => state.told(ToastKind::Warning, message),
        None => state,
    }
}

/// A checkout that is gone: its removal is over, and the branch list is loaded anew where it
/// is shown.
pub open spec fn after_removed(
    state: AppStateV,
    changes: TickChangesV,
    ours: bool,
    repo_path: Seq<u8>,
    branch_name: Seq<char>,
    worktree_path: Seq<u8>,
    warning: Option<Seq<char>>,
) -> (AppStateV, TickChangesV) {
    let rules = state.repo_view.path_rules;
    let repo_view = repos_without_checkout(state.repo_view, repo_path, worktree_path);
    let gone = AppStateV { repo_view, ..state }.with_pending(
        cleared(state.delete.pending, worktree_path, rules),
    );
    let saving = TickChangesV { save_pending: true, ..changes };
    if ours {
        let repo = repo_at(repo_view.entries, repo_path, rules);
        (
            with_warning(
                AppStateV {
                    mode: ModeV::BranchSelect(
                        BranchContextV {
                            repo_path,
                            repo_name: match repo {
                                Some(repo) => repo.name,
                                None => "repository"@,
                            },
                        },
                    ),
                    branch_view: branches_without_checkout(state.branch_view, branch_name),
                    ..gone
                },
                warning,
            ),
            TickChangesV { refresh_branch: repo, ..saving },
        )
    } else {
        (with_warning(gone, warning), saving)
    }
}

fn forget_checkout(view: &mut BranchViewState, branch_name: &str)
    ensures
        final(view).deep_view() == branches_without_checkout(old(view).deep_view(), branch_name@),
{
    let ghost start = view.deep_view();
    view.reset_remotes();
    view.loading = true;
    view.open_worktrees = Vec::new();
    view.open_worktree_load_state = OpenWorktreeLoadState::Unknown;
    match find_branch_named(&view.entries, branch_name) {
        Some(place) => {
            let ghost before = view.entries.deep_view();
            let mut entry = view.entries[place].clone();
            entry.worktree_path = None;
            entry.open_workspace_id = None;
            let ghost changed = entry.deep_view();
            view.entries.set(place, entry);
            assert(view.entries.deep_view() =~= before.update(place as int, changed));
        },
        None => {},
    }
    assert(view.deep_view() =~= branches_without_checkout(start, branch_name@));
}

fn forget_worktree(view: &mut RepoViewState, repo_path: &PathBuf, worktree_path: &PathBuf)
    ensures
        final(view).deep_view() == repos_without_checkout(
            old(view).deep_view(),
            repo_path@,
            worktree_path@,
        ),
{
    let rules = view.path_rules;
    let kept: Option<Vec<Worktree>> = match find_repo(&view.entries, repo_path, rules) {
        Some(place) => Some(
            drop_checkout(&view.entries[place].repo.worktrees, worktree_path, rules),
        ),
        None => None,
    };
    match kept {
        Some(worktrees) => view.set_worktrees(repo_path, worktrees),
        None => {},
    }
}

#[verifier::rlimit(60)]
fn handle_removed(
    state: &mut AppState,
    changes: &mut TickChanges,
    ours: bool,
    repo_path: &PathBuf,
    branch_name: &str,
    worktree_path: &PathBuf,
    warning: Option<String>,
)
    ensures
        (final(state).deep_view(), final(changes).deep_view()) == after_removed(
            old(state).deep_view(),
            old(changes).deep_view(),
            ours,
            repo_path@,
            branch_name@,
            worktree_path@,
            warning.deep_view(),
        ),
{
    let rules = state.repo_view.path_rules;
    let ghost start = state.deep_view();
    clear(&mut state.delete.pending, worktree_path, rules);
    changes.save_pending = true;
    forget_worktree(&mut state.repo_view, repo_path, worktree_path);
    if ours {
        let repo = copy_repo_at(&state.repo_view.entries, repo_path, rules);
        let repo_name = match &repo {
            Some(repo) => repo.name.clone(),
            None => owned("repository"),
        };
        state.mode = Mode::BranchSelect(BranchContext { repo_path: repo_path.clone(), repo_name });
        forget_checkout(&mut state.branch_view, branch_name);
        changes.refresh_branch = repo;
    }
    match &warning {
        Some(message) => state.push_toast(ToastKind::Warning, message.as_str()),
        None => {},
    }
}

pub open spec fn removal_failure(branch_name: Seq<char>, error: Seq<char>) -> Seq<char> {
    "Failed to remove checkout for "@ + branch_name + ": "@ + error
}

/// A removal that failed is over; where it is shown, the branch list comes back.
pub open spec fn after_failed(
    state: AppStateV,
    changes: TickChangesV,
    ours: bool,
    repo_path: Seq<u8>,
    branch_name: Seq<char>,
    worktree_path: Seq<u8>,
    error: Seq<char>,
) -> (AppStateV, TickChangesV) {
    let rules = state.repo_view.path_rules;
    let over = state.with_pending(cleared(state.delete.pending, worktree_path, rules));
    let shown = if ours {
        AppStateV {
            mode: ModeV::BranchSelect(
                BranchContextV {
                    repo_path,
                    repo_name: match state.mode.context() {
                        Some(context) => context.repo_name,
                        None => "repository"@,
                    },
                },
            ),
            ..over
        }
    } else {
        over
    };
    (
        shown.told(ToastKind::Error, removal_failure(branch_name, error)),
        TickChangesV { save_pending: true, ..changes },
    )
}

fn handle_failed(
    state: &mut AppState,
    changes: &mut TickChanges,
    ours: bool,
    repo_path: PathBuf,
    branch_name: &str,
    worktree_path: &PathBuf,
    error: &str,
)
    ensures
        (final(state).deep_view(), final(changes).deep_view()) == after_failed(
            old(state).deep_view(),
            old(changes).deep_view(),
            ours,
            repo_path@,
            branch_name@,
            worktree_path@,
            error@,
        ),
{
    let rules = state.repo_view.path_rules;
    clear(&mut state.delete.pending, worktree_path, rules);
    changes.save_pending = true;
    if ours {
        let repo_name = match state.branch_context() {
            Some(context) => context.repo_name.clone(),
            None => owned("repository"),
        };
        state.mode = Mode::BranchSelect(BranchContext { repo_path, repo_name });
    }
    let head = concat3("Failed to remove checkout for ", branch_name, ": ");
    let message = concat(head.as_str(), error);
    state.push_toast(ToastKind::Error, message.as_str());
}

/// What the end of a removal does: nothing where the removal is not known here.
pub open spec fn after_event(event: AppEvent, state: AppStateV, changes: TickChangesV) -> Option<
    (AppStateV, TickChangesV),
> {
    let rules = state.repo_view.path_rules;
    match event {
        AppEvent::WorktreeRemovalFinished { repo_path, branch_name, worktree_path, outcome } => {
            let asked = asks_about(state.mode, repo_path@, branch_name@, worktree_path@, rules);
            let ours = asked || shows_repo(state.mode, repo_path@, rules);
            let landed = AppStateV {
                delete: DeleteStateV {
                    in_flight: without_path(state.delete.in_flight, worktree_path@, rules),
                    ..state.delete
                },
                ..state
            };
            if !asked && !has_path(state.delete.in_flight, worktree_path@, rules) {
                None
            } else {
                Some(
                    match outcome {
                        WorktreeRemovalOutcome::DirtyRequiresForce => (
                            after_dirty(landed, ours, branch_name@, worktree_path@),
                            changes,
                        ),
                        WorktreeRemovalOutcome::Removed { warning } => after_removed(
                            landed,
                            changes,
                            ours,
                            repo_path@,
                            branch_name@,
                            worktree_path@,
                            warning.deep_view(),
                        ),
                        WorktreeRemovalOutcome::Failed(error) => after_failed(
                            landed,
                            changes,
                            ours,
                            repo_path@,
                            branch_name@,
                            worktree_path@,
                            error@,
                        ),
                    },
                )
            }
        },
        _ => None,
    }
}

/// Takes an event in, or hands it back where it is not about a removal that is known here.
pub fn handle_event(event: AppEvent, state: &mut AppState, changes: &mut TickChanges) -> (passed:
    Option<AppEvent>)
    ensures
        match after_event(event, old(state).deep_view(), old(changes).deep_view()) {
            Some((state_after, changes_after)) => passed is None && final(state).deep_view()
                == state_after && final(changes).deep_view() == changes_after,
            None => passed == Some(event) && *final(state) == *old(state) && *final(changes)
                == *old(changes),
        },
{
    let rules = state.repo_view.path_rules;
    match event {
        AppEvent::WorktreeRemovalFinished { repo_path, branch_name, worktree_path, outcome } => {
            let asked = event_matches(state, &repo_path, branch_name.as_str(), &worktree_path);
            if !asked && !contains_path(&state.delete.in_flight, &worktree_path, rules) {
                return Some(
                    AppEvent::WorktreeRemovalFinished {
                        repo_path,
                        branch_name,
                        worktree_path,
                        outcome,
                    },
                );
            }
            let ours = asked || matches_repo(state, &repo_path);
            state.delete.in_flight = remove_path(&state.delete.in_flight, &worktree_path, rules);
            match outcome {
                WorktreeRemovalOutcome::DirtyRequiresForce => handle_dirty(
                    state,
                    ours,
                    branch_name,
                    worktree_path,
                ),
                WorktreeRemovalOutcome::Removed { warning } => handle_removed(
                    state,
                    changes,
                    ours,
                    &repo_path,
                    branch_name.as_str(),
                    &worktree_path,
                    warning,
                ),
                WorktreeRemovalOutcome::Failed(error) => handle_failed(
                    state,
                    changes,
                    ours,
                    repo_path,
                    branch_name.as_str(),
                    &worktree_path,
                    error.as_str(),
                ),
            }
            None
        },
        other => Some(other),
    }
}

/// Whether the open checkouts of a repository were listed for this visit.
pub open spec fn open_state_known(view: BranchViewV, repo_path: Seq<u8>) -> bool {
    let rules = view.path_rules;
    match view.open_worktree_load_state {
        OpenWorktreeLoadStateV::Loaded { repo_path: loaded, generation } => same_path(
            loaded,
            repo_path,
            rules,
        ) && generation == view.generation,
        _ => false,
    }
}

/// Whether listing them failed for this visit.
pub open spec fn open_state_failed(view: BranchViewV, repo_path: Seq<u8>) -> bool {
    let rules = view.path_rules;
    match view.open_worktree_load_state {
        OpenWorktreeLoadStateV::Failed { repo_path: failed, generation } => same_path(
            failed,
            repo_path,
            rules,
        ) && generation == view.generation,
        _ => false,
    }
}

pub fn is_open_state_known(view: &BranchViewState, repo_path: &PathBuf) -> (answer: bool)
    ensures
        answer == open_state_known(view.deep_view(), repo_path@),
{
    let rules = view.path_rules;
    match &view.open_worktree_load_state {
        OpenWorktreeLoadState::Loaded { repo_path: loaded, generation } => equal_paths(
            loaded,
            repo_path,
            rules,
        ) && *generation == view.generation,
        _ => false,
    }
}

fn is_open_state_failed(view: &BranchViewState, repo_path: &PathBuf) -> (answer: bool)
    ensures
        answer == open_state_failed(view.deep_view(), repo_path@),
{
    let rules = view.path_rules;
    match &view.open_worktree_load_state {
        OpenWorktreeLoadState::Failed { repo_path: failed, generation } => equal_paths(
            failed,
            repo_path,
            rules,
        ) && *generation == view.generation,
        _ => false,
    }
}

/// Whether the removal of a branch was started.
pub open spec fn removal_started(
    pending: Seq<PendingWorktreeDeleteV>,
    repo_path: Seq<u8>,
    branch_name: Seq<char>,
    rules: PathRules,
) -> bool {
    exists|i: int|
        0 <= i < pending.len() && is_removal_of(#[trigger] pending[i], repo_path, branch_name, rules)
}

fn is_removal_started(
    pending: &Vec<PendingWorktreeDelete>,
    repo_path: &PathBuf,
    branch_name: &str,
    rules: PathRules,
) -> (answer: bool)
    ensures
        answer == removal_started(pending.deep_view(), repo_path@, branch_name@, rules),
{
    let mut i: usize = 0;
    while i < pending.len()
        invariant
            i <= pending.len(),
            forall|k: int|
                0 <= k < i ==> !is_removal_of(
                    #[trigger] pending.deep_view()[k],
                    repo_path@,
                    branch_name@,
                    rules,
                ),
        decreases pending.len() - i,
    {
        if equal_paths(&pending[i].repo_path, repo_path, rules) && same_text(
            pending[i].branch_name.as_str(),
            branch_name,
        ) {
            assert(is_removal_of(pending.deep_view()[i as int], repo_path@, branch_name@, rules));
            return true;
        }
        i = i + 1;
    }
    false
}

/// A path in its canonical spelling, or as it is where that is not known.
pub open spec fn canonical_or(canonical: Option<Seq<u8>>, path: Seq<u8>) -> Seq<u8> {
    match canonical {
        Some(found) => found,
        None => path,
    }
}

/// The checkout that the selected row offers for removal, or why it offers none.
pub open spec fn target_of(
    state: AppStateV,
    canonical_checkout: Option<Seq<u8>>,
    canonical_repo: Option<Seq<u8>>,
) -> Result<DeleteWorktreeTargetV, Seq<char>> {
    let rules = state.repo_view.path_rules;
    match (state.mode, state.branch_view.selected()) {
        (ModeV::BranchSelect(context), Some(branch)) => if branch.remote is Some {
            Err("Remote-only branches have no checkout to delete"@)
        } else if branch.worktree_path is None {
            Err("No worktree to delete"@)
        } else if same_place(
            canonical_or(canonical_checkout, branch.worktree_path->0),
            canonical_or(canonical_repo, context.repo_path),
            state.branch_view.path_rules,
        ) {
            Err("Cannot delete the main checkout"@)
        } else if has_path(state.delete.in_flight, branch.worktree_path->0, rules) || removal_started(
            state.delete.pending,
            context.repo_path,
            branch.name,
            rules,
        ) {
            Err("Worktree deletion already in progress"@)
        } else if open_state_failed(state.branch_view, context.repo_path) {
            Err("Cannot delete checkout because open checkout state could not be loaded"@)
        } else if !open_state_known(state.branch_view, context.repo_path) {
            Err("Open checkout state is still loading; deletion is disabled"@)
        } else {
            Ok(
                DeleteWorktreeTargetV {
                    branch_name: branch.name,
                    worktree_path: branch.worktree_path->0,
                    open_workspace_id: branch.open_workspace_id,
                    force: false,
                    in_progress: false,
                },
            )
        },
        (ModeV::BranchSelect(_), None) => Err("No branch selected"@),
        _ => Err("Worktrees can only be deleted from the branch view"@),
    }
}

pub open spec fn target_view(found: Result<DeleteWorktreeTarget, &'static str>) -> Result<
    DeleteWorktreeTargetV,
    Seq<char>,
> {
    match found {
        Ok(target) => Ok(target.deep_view()),
        Err(message) => Err(message@),
    }
}

/// The checkout that the selected row offers for removal, or why it offers none. The
/// canonical paths of the checkout and of its repository are given where they are known.
pub fn selected_target(
    state: &AppState,
    canonical_checkout: Option<&PathBuf>,
    canonical_repo: Option<&PathBuf>,
) -> (found: Result<DeleteWorktreeTarget, &'static str>)
    ensures
        target_view(found) == target_of(
            state.deep_view(),
            canonical_checkout.deep_view(),
            canonical_repo.deep_view(),
        ),
{
    let rules = state.repo_view.path_rules;
    let context = match &state.mode {
        Mode::BranchSelect(context) => context,
        _ => return Err("Worktrees can only be deleted from the branch view"),
    };
    let branch = match state.branch_view.selected() {
        Some(branch) => branch,
        None => return Err("No branch selected"),
    };
    if branch.remote.is_some() {
        return Err("Remote-only branches have no checkout to delete");
    }
    let worktree_path = match &branch.worktree_path {
        Some(path) => path,
        None => return Err("No worktree to delete"),
    };
    let checkout = match canonical_checkout {
        Some(path) => path,
        None => worktree_path,
    };
    let repo = match canonical_repo {
        Some(path) => path,
        None => &context.repo_path,
    };
    if equivalent(checkout, repo, state.branch_view.path_rules) {
        return Err("Cannot delete the main checkout");
    }
    if contains_path(&state.delete.in_flight, worktree_path, rules) || is_removal_started(
        &state.delete.pending,
        &context.repo_path,
        branch.name.as_str(),
        rules,
    ) {
        return Err("Worktree deletion already in progress");
    }
    if is_open_state_failed(&state.branch_view, &context.repo_path) {
        return Err("Cannot delete checkout because open checkout state could not be loaded");
    }
    if !is_open_state_known(&state.branch_view, &context.repo_path) {
        return Err("Open checkout state is still loading; deletion is disabled");
    }
    Ok(
        DeleteWorktreeTarget {
            branch_name: branch.name.clone(),
            worktree_path: worktree_path.clone(),
            open_workspace_id: copy_optional_text(&branch.open_workspace_id),
            force: false,
            in_progress: false,
        },
    )
}

/// Asking whether the selected checkout is to be removed.
pub open spec fn after_begin(
    state: AppStateV,
    canonical_checkout: Option<Seq<u8>>,
    canonical_repo: Option<Seq<u8>>,
) -> AppStateV {
    match state.mode {
        ModeV::BranchSelect(context) => match target_of(
            state,
            canonical_checkout,
            canonical_repo,
        ) {
            Ok(target) => AppStateV {
                mode: ModeV::ConfirmWorktreeDelete(DeleteFlowV { context, target }),
                ..state
            },
            Err(message) => state.told(ToastKind::Error, message),
        },
        _ => state,
    }
}

/// Asks whether the selected checkout is to be removed.
pub fn begin(
    state: &mut AppState,
    canonical_checkout: Option<&PathBuf>,
    canonical_repo: Option<&PathBuf>,
)
    ensures
        final(state).deep_view() == after_begin(
            old(state).deep_view(),
            canonical_checkout.deep_view(),
            canonical_repo.deep_view(),
        ),
{
    let context = match &state.mode {
        Mode::BranchSelect(context) => context.clone(),
        _ => return,
    };
    match selected_target(state, canonical_checkout, canonical_repo) {
        Ok(target) => {
            state.mode = Mode::ConfirmWorktreeDelete(DeleteFlowState::new(context, target));
        },
        Err(message) => state.push_toast(ToastKind::Error, message),
    }
}

/// The removal that a question asks for.
pub open spec fn removal_of(flow: DeleteFlowV, now: u64) -> PendingWorktreeDeleteV {
    PendingWorktreeDeleteV {
        repo_path: flow.context.repo_path,
        branch_name: flow.target.branch_name,
        worktree_path: flow.target.worktree_path,
        force: flow.target.force,
        started_at_unix_secs: now,
    }
}

/// Agreeing to a removal: it is marked as pending, which is to be saved before it starts. It
/// is refused where the open checkouts are not known for this visit or the checkout is no
/// longer listed.
pub open spec fn after_confirm(state: AppStateV, now: u64) -> (AppStateV, Option<EffectV>) {
    let rules = state.repo_view.path_rules;
    match state.mode {
        ModeV::ConfirmWorktreeDelete(flow) => if flow.target.in_progress {
            (state, None)
        } else if !open_state_known(state.branch_view, flow.context.repo_path) {
            (
                state.told(
                    ToastKind::Error,
                    if state.branch_view.open_worktree_load_state is Failed {
                        "Cannot delete checkout because open checkout state could not be loaded"@
                    } else {
                        "Open checkout state is stale or still loading; deletion was not started"@
                    },
                ),
                None,
            )
        } else {
            match branch_at(
                state.branch_view.entries,
                flow.target.branch_name,
                flow.target.worktree_path,
                rules,
            ) {
                Some(branch) => (
                    AppStateV {
                        mode: ModeV::ConfirmWorktreeDelete(
                            with_workspace(flow, branch.open_workspace_id),
                        ),
                        ..state
                    }.with_pending(marked(state.delete.pending, removal_of(flow, now), rules)),
                    Some(EffectV::SavePendingThenRemove),
                ),
                None => (
                    state.told(
                        ToastKind::Error,
                        "Checkout state changed; cancel deletion and try again"@,
                    ),
                    None,
                ),
            }
        },
        _ => (state, None),
    }
}

/// Agrees to the removal that is asked about.
pub fn confirm(state: &mut AppState, now: u64) -> (effect: Option<Effect>)
    ensures
        (final(state).deep_view(), effect.deep_view()) == after_confirm(
            old(state).deep_view(),
            now,
        ),
{
    let rules = state.repo_view.path_rules;
    let (context, target) = match &state.mode {
        Mode::ConfirmWorktreeDelete(flow) => (flow.context.clone(), flow.target.clone()),
        _ => return None,
    };
    if target.in_progress {
        return None;
    }
    if !is_open_state_known(&state.branch_view, &context.repo_path) {
        let message = match &state.branch_view.open_worktree_load_state {
            OpenWorktreeLoadState::Failed { .. } =>
                "Cannot delete checkout because open checkout state could not be loaded",
            _ => "Open checkout state is stale or still loading; deletion was not started",
        };
        state.push_toast(ToastKind::Error, message);
        return None;
    }
    let workspace = match find_branch_at(
        &state.branch_view.entries,
        target.branch_name.as_str(),
        &target.worktree_path,
        rules,
    ) {
        Some(branch) => Some(copy_optional_text(&branch.open_workspace_id)),
        None => None,
    };
    let workspace = match workspace {
        Some(workspace) => workspace,
        None => {
            state.push_toast(
                ToastKind::Error,
                "Checkout state changed; cancel deletion and try again",
            );
            return None;
        },
    };
    if let Mode::ConfirmWorktreeDelete(flow) = &mut state.mode {
        flow.target.open_workspace_id = workspace;
    }
    let mut pending = PendingWorktreeDelete::new(
        context.repo_path,
        target.branch_name,
        target.worktree_path,
        now,
    );
    pending.force = target.force;
    mark(&mut state.delete.pending, pending, rules);
    Some(Effect::SavePendingThenRemove)
}

pub open spec fn inserted_path(paths: Seq<Seq<u8>>, path: Seq<u8>, rules: PathRules) -> Seq<Seq<u8>> {
    if has_path(paths, path, rules) {
        paths
    } else {
        paths.push(path)
    }
}

fn insert_path(paths: &mut Vec<PathBuf>, path: PathBuf, rules: PathRules) -> (added: bool)
    ensures
        final(paths).deep_view() == inserted_path(old(paths).deep_view(), path@, rules),
        added == !has_path(old(paths).deep_view(), path@, rules),
{
    let ghost start = paths.deep_view();
    if contains_path(paths, &path, rules) {
        return false;
    }
    let ghost added = path@;
    paths.push(path);
    assert(paths.deep_view() =~= start.push(added));
    true
}

/// Starting the removal that was agreed to, once it is saved; where saving failed, it does
/// not start.
pub open spec fn after_saved(state: AppStateV, error: Option<Seq<char>>) -> (
    AppStateV,
    Option<EffectV>,
) {
    let rules = state.repo_view.path_rules;
    match state.mode {
        ModeV::ConfirmWorktreeDelete(flow) => match error {
            Some(error) => (
                state.with_pending(
                    cleared(state.delete.pending, flow.target.worktree_path, rules),
                ).told(ToastKind::Error, "Could not persist pending deletion: "@ + error),
                None,
            ),
            None => (
                AppStateV {
                    mode: ModeV::ConfirmWorktreeDelete(
                        DeleteFlowV {
                            target: DeleteWorktreeTargetV { in_progress: true, ..flow.target },
                            ..flow
                        },
                    ),
                    delete: DeleteStateV {
                        in_flight: inserted_path(
                            state.delete.in_flight,
                            flow.target.worktree_path,
                            rules,
                        ),
                        ..state.delete
                    },
                    ..state
                },
                Some(
                    EffectV::RemoveWorktree {
                        repo_path: flow.context.repo_path,
                        branch_name: flow.target.branch_name,
                        worktree_path: flow.target.worktree_path,
                        force: flow.target.force,
                    },
                ),
            ),
        },
        _ => (state, None),
    }
}

/// Starts the removal that was agreed to, once the pending ones were saved or failed to be.
pub fn confirm_saved(state: &mut AppState, error: Option<&str>) -> (effect: Option<Effect>)
    ensures
        (final(state).deep_view(), effect.deep_view()) == after_saved(
            old(state).deep_view(),
            error.deep_view(),
        ),
{
    let rules = state.repo_view.path_rules;
    let (context, target) = match &state.mode {
        Mode::ConfirmWorktreeDelete(flow) => (flow.context.clone(), flow.target.clone()),
        _ => return None,
    };
    match error {
        Some(error) => {
            clear(&mut state.delete.pending, &target.worktree_path, rules);
            let message = concat("Could not persist pending deletion: ", error);
            state.push_toast(ToastKind::Error, message.as_str());
            return None;
        },
        None => {},
    }
    if let Mode::ConfirmWorktreeDelete(flow) = &mut state.mode {
        flow.target.in_progress = true;
    }
    let _ = insert_path(&mut state.delete.in_flight, target.worktree_path.clone(), rules);
    Some(
        Effect::RemoveWorktree {
            repo_path: context.repo_path,
            branch_name: target.branch_name,
            worktree_path: target.worktree_path,
            force: target.force,
        },
    )
}

/// Declining a removal: a running one goes on. Whether there was a question, and what is
/// asked for.
pub open spec fn after_cancel(state: AppStateV) -> (AppStateV, bool, Option<EffectV>) {
    let rules = state.repo_view.path_rules;
    match state.mode {
        ModeV::ConfirmWorktreeDelete(flow) => if flow.target.in_progress {
            (state, true, None)
        } else {
            let back = AppStateV { mode: ModeV::BranchSelect(flow.context), ..state };
            if flow.target.force {
                (
                    back.with_pending(cleared(state.delete.pending, flow.target.worktree_path, rules)),
                    true,
                    Some(EffectV::SavePending),
                )
            } else {
                (back, true, None)
            }
        },
        _ => (state, false, None),
    }
}

/// Declines the removal that is asked about.
pub fn cancel(state: &mut AppState) -> (outcome: (bool, Option<Effect>))
    ensures
        (final(state).deep_view(), outcome.0, outcome.1.deep_view()) == after_cancel(
            old(state).deep_view(),
        ),
{
    let rules = state.repo_view.path_rules;
    let (context, target) = match &state.mode {
        Mode::ConfirmWorktreeDelete(flow) => (flow.context.clone(), flow.target.clone()),
        _ => return (false, None),
    };
    if target.in_progress {
        return (true, None);
    }
    state.mode = Mode::BranchSelect(context);
    if target.force {
        clear(&mut state.delete.pending, &target.worktree_path, rules);
        return (true, Some(Effect::SavePending));
    }
    (true, None)
}

/// The removals of a repository that are to be taken up again: those that do not run yet.
pub open spec fn resumed(
    pending: Seq<PendingWorktreeDeleteV>,
    repo_path: Seq<u8>,
    in_flight: Seq<Seq<u8>>,
    rules: PathRules,
) -> (Seq<Seq<u8>>, Seq<EffectV>)
    decreases pending.len(),
{
    if pending.len() == 0 {
        (in_flight, Seq::empty())
    } else {
        let (running, effects) = resumed(pending.drop_last(), repo_path, in_flight, rules);
        let last = pending.last();
        if !same_path(last.repo_path, repo_path, rules) || has_path(running, last.worktree_path, rules) {
            (running, effects)
        } else {
            (
                running.push(last.worktree_path),
                effects.push(
                    EffectV::RemoveWorktree {
                        repo_path,
                        branch_name: last.branch_name,
                        worktree_path: last.worktree_path,
                        force: last.force,
                    },
                ),
            )
        }
    }
}

/// Taking up the pending removals of the repository whose branches are shown, once its open
/// checkouts are known.
pub open spec fn after_resume(state: AppStateV) -> (AppStateV, Seq<EffectV>) {
    let rules = state.repo_view.path_rules;
    match state.mode {
        ModeV::BranchSelect(context) => if state.branch_view.loading || !open_state_known(
            state.branch_view,
            context.repo_path,
        ) {
            (state, Seq::empty())
        } else {
            let (in_flight, effects) = resumed(
                state.delete.pending,
                context.repo_path,
                state.delete.in_flight,
                rules,
            );
            (
                AppStateV { delete: DeleteStateV { in_flight, ..state.delete }, ..state },
                effects,
            )
        },
        _ => (state, Seq::empty()),
    }
}

/// Takes up the pending removals of the repository whose branches are shown.
#[verifier::loop_isolation(false)]
pub fn resume(state: &mut AppState) -> (effects: Vec<Effect>)
    ensures
        (final(state).deep_view(), effects.deep_view()) == after_resume(old(state).deep_view()),
{
    let rules = state.repo_view.path_rules;
    let ghost start = state.deep_view();
    let mut effects: Vec<Effect> = Vec::new();
    assert(effects.deep_view() =~= Seq::<EffectV>::empty());
    if state.branch_view.loading {
        return effects;
    }
    let repo_path = match &state.mode {
        Mode::BranchSelect(context) => context.repo_path.clone(),
        _ => return effects,
    };
    if !is_open_state_known(&state.branch_view, &repo_path) {
        return effects;
    }
    let ghost all = start.delete.pending;
    let mut i: usize = 0;
    assert(all.take(0) =~= Seq::<PendingWorktreeDeleteV>::empty());
    while i < state.delete.pending.len()
        invariant
            i <= state.delete.pending.len(),
            state.delete.pending.deep_view() == all,
            state.deep_view() == (AppStateV {
                delete: DeleteStateV {
                    in_flight: state.deep_view().delete.in_flight,
                    ..start.delete
                },
                ..start
            }),
            (state.delete.in_flight.deep_view(), effects.deep_view()) == resumed(
                all.take(i as int),
                repo_path@,
                start.delete.in_flight,
                rules,
            ),
        decreases state.delete.pending.len() - i,
    {
        let ghost asked = effects.deep_view();
        let pending = state.delete.pending[i].clone();
        proof {
            assert(all.take(i + 1).drop_last() =~= all.take(i as int));
            assert(all[i as int] == pending.deep_view());
        }
        if equal_paths(&pending.repo_path, &repo_path, rules) {
            if insert_path(&mut state.delete.in_flight, pending.worktree_path.clone(), rules) {
                let effect = Effect::RemoveWorktree {
                    repo_path: repo_path.clone(),
                    branch_name: pending.branch_name,
                    worktree_path: pending.worktree_path,
                    force: pending.force,
                };
                let ghost added = effect.deep_view();
                effects.push(effect);
                assert(effects.deep_view() =~= asked.push(added));
            }
        }
        i = i + 1;
    }
    assert(all.take(all.len() as int) =~= all);
    effects
}

/// Takes in that the pending removals could not be saved.
pub fn persist_failed(state: &mut AppState, error: &str)
    ensures
        final(state).deep_view() == old(state).deep_view().told(
            ToastKind::Error,
            "Could not persist pending deletions: "@ + error@,
        ),
{
    let message = concat("Could not persist pending deletions: ", error);
    state.push_toast(ToastKind::Error, message.as_str());
}

/// Takes the pending removals from a saved file; what is wrong with the file is handed back.
pub fn load_pending(state: &mut AppState, file: SavedFile<PendingWorktreeDelete>, now: u64) -> (
    problem: Option<String>)
    ensures
        problem.deep_view() == file_problem(
            file,
            "is malformed: "@,
            crate::pending_delete::STATE_VERSION as nat,
        ),
        final(state).deep_view() == old(state).deep_view().with_pending(
            match usable_entries(
                file,
                "is malformed: "@,
                crate::pending_delete::STATE_VERSION as nat,
            ) {
                Some(entries) => still_pending(entries, now),
                None => Seq::empty(),
            },
        ),
{
    let (entries, problem) = pending_from_file(file, now);
    state.delete.pending = entries;
    problem
}

/// A removal is only offered for a local branch with a checkout of its own.
pub proof fn lemma_target_is_own_checkout(
    state: AppStateV,
    canonical_checkout: Option<Seq<u8>>,
    canonical_repo: Option<Seq<u8>>,
)
    requires
        target_of(state, canonical_checkout, canonical_repo) is Ok,
    ensures
        ({
            let target = target_of(state, canonical_checkout, canonical_repo)->Ok_0;
            let branch = state.branch_view.selected()->0;
            &&& branch.remote is None
            &&& branch.worktree_path == Some(target.worktree_path)
            &&& !same_place(
                canonical_or(canonical_checkout, target.worktree_path),
                canonical_or(canonical_repo, state.mode->BranchSelect_0.repo_path),
                state.branch_view.path_rules,
            )
            &&& !target.force
            &&& !target.in_progress
        }),
{
}

/// No checkout is removed twice at a time: what runs is not taken up again.
pub proof fn lemma_resume_starts_once(
    pending: Seq<PendingWorktreeDeleteV>,
    repo_path: Seq<u8>,
    in_flight: Seq<Seq<u8>>,
    rules: PathRules,
)
    ensures
        ({
            let (running, effects) = resumed(pending, repo_path, in_flight, rules);
            &&& running.len() == in_flight.len() + effects.len()
            &&& running.take(in_flight.len() as int) == in_flight
            &&& forall|i: int|
                0 <= i < effects.len() ==> (#[trigger] effects[i]) is RemoveWorktree
                    && effects[i]->RemoveWorktree_worktree_path == running[in_flight.len() + i]
            &&& forall|i: int, j: int|
                in_flight.len() <= j < running.len() && 0 <= i < j ==> !same_path(
                    #[trigger] running[i],
                    #[trigger] running[j],
                    rules,
                )
        }),
    decreases pending.len(),
{
    if pending.len() > 0 {
        lemma_resume_starts_once(pending.drop_last(), repo_path, in_flight, rules);
        let (before, asked) = resumed(pending.drop_last(), repo_path, in_flight, rules);
        let (running, effects) = resumed(pending, repo_path, in_flight, rules);
        assert(running.take(in_flight.len() as int) =~= before.take(in_flight.len() as int));
        assert forall|i: int| 0 <= i < effects.len() implies (#[trigger] effects[i])
            is RemoveWorktree && effects[i]->RemoveWorktree_worktree_path
            == running[in_flight.len() + i] by {
            if i < asked.len() {
                assert(effects[i] == asked[i]);
            }
        }
        assert forall|i: int, j: int|
            in_flight.len() <= j < running.len() && 0 <= i < j implies !same_path(
            #[trigger] running[i],
            #[trigger] running[j],
            rules,
        ) by {
            if j < before.len() {
                assert(running[i] == before[i]);
                assert(running[j] == before[j]);
            } else {
                assert(running[i] == before[i]);
            }
        }
    } else {
        assert(in_flight.take(in_flight.len() as int) =~= in_flight);
    }
}

/// A removal that fails or succeeds is not pending any more.
pub proof fn lemma_finished_removal_is_not_pending(
    event: AppEvent,
    state: AppStateV,
    changes: TickChangesV,
)
    requires
        event is WorktreeRemovalFinished,
        !(event->outcome is DirtyRequiresForce),
        after_event(event, state, changes) is Some,
    ensures
        ({
            let (state_after, changes_after) = after_event(event, state, changes)->0;
            &&& state_after.delete.pending == cleared(
                state.delete.pending,
                event->WorktreeRemovalFinished_worktree_path@,
                state.repo_view.path_rules,
            )
            &&& changes_after.save_pending
        }),
{
}

/// A removal is first asked for without force.
pub proof fn lemma_first_question_is_unforced(
    state: AppStateV,
    canonical_checkout: Option<Seq<u8>>,
    canonical_repo: Option<Seq<u8>>,
)
    requires
        !(state.mode is ConfirmWorktreeDelete),
    ensures
        after_begin(state, canonical_checkout, canonical_repo).mode matches
            ModeV::ConfirmWorktreeDelete(flow) ==> !flow.target.force && !flow.target.in_progress,
{
}

/// Force is offered only where a removal without it was refused because of changes.
pub proof fn lemma_force_follows_a_refusal(
    event: AppEvent,
    state: AppStateV,
    changes: TickChangesV,
)
    requires
        state.mode matches ModeV::ConfirmWorktreeDelete(flow) ==> !flow.target.force,
    ensures
        after_event(event, state, changes) matches Some((after, _)) ==> (after.mode matches
            ModeV::ConfirmWorktreeDelete(flow) ==> flow.target.force ==> (event matches
            AppEvent::WorktreeRemovalFinished { outcome, .. } && outcome is DirtyRequiresForce)),
{
}

/// Nothing is removed before its question is answered and its removal is on record.
pub proof fn lemma_removal_waits_for_its_record(state: AppStateV, now: u64)
    ensures
        after_confirm(state, now).1 is None || after_confirm(state, now).1
            == Some(EffectV::SavePendingThenRemove),
        after_confirm(state, now).1 is Some ==> (state.mode matches ModeV::ConfirmWorktreeDelete(
            flow,
        ) && after_confirm(state, now).0.delete.pending.contains(removal_of(flow, now))),
        forall|error: Seq<char>| #[trigger] after_saved(state, Some(error)).1 is None,
{
    let rules = state.repo_view.path_rules;
    match state.mode {
        ModeV::ConfirmWorktreeDelete(flow) => {
            let all = marked(state.delete.pending, removal_of(flow, now), rules);
            assert(all[all.len() - 1] == removal_of(flow, now));
        },
        _ => {},
    }
}

} // verus!
