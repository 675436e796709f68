//! The branch list of one repository.

use crate::branches::{copy_entries, copy_optional_path, has_text, lemma_sorted_branches, rank_branches, sorted_branches, BranchEntry, BranchEntryV, BranchId, BranchIdV};
use crate::effects::{Effect, EffectV, FilterItem, FilterItemV, FilterRequest, FilterRequestV, RemoteLoading, RemoteLoadingV, TickChanges, TickChangesV};
use crate::event::{AppEvent, BranchOperationFailure, FilterKey, FilterKeyV, FilterTarget};
use crate::git::{Repo, RepoV, Worktree, WorktreeV, UNSUPPORTED_REF_WARNING};
use crate::herdr::{WorktreeInfo, WorktreeInfoV};
use crate::input::{all_rows, every_row, Edit, SearchableList, SearchableListV, TextInputV};
use crate::order::{compare_text, lemma_rank_bytes_equal, lemma_rank_text_consistent, lemma_sorted_contains, not_after, rank_text, Rank};
use crate::path::{equal_paths, same_path, PathBuf, PathRules};
use crate::rows::{advance, apply_matches, find_first, find_position, first_place, keys_shown, look_up_rows, next_generation, or_first, position_of, rows_of, selected_index, selected_item, selected_key, shown_keys, with_matches};
use crate::screens::delete::{is_open_state_known, open_state_known, reconcile_pending, refresh_open_state};
use crate::screens::repo::{copy_repo_at, repo_at};
use crate::screens::snapshots::{after_call, first_failure, warns_of_refs, ViewCall};
use crate::state::{AppState, AppStateV, Mode, ModeV};
use crate::toasts::ToastKind;
use crate::text::{concat, concat3, owned, same_text};
use vstd::prelude::*;
use vstd::string::*;
use vstd::utf8::{encode_utf8, encode_utf8_decode_utf8};

verus! {

/// The repository whose branches are shown.
#[derive(Debug, PartialEq, Eq)]
pub struct BranchContext {
    pub repo_path: PathBuf,
    pub repo_name: String,
}

#[verifier::ext_equal]
pub struct BranchContextV {
    pub repo_path: Seq<u8>,
    pub repo_name: Seq<char>,
}

impl DeepView for BranchContext {
    type V = BranchContextV;

    open spec fn deep_view(&self) -> BranchContextV {
        BranchContextV { repo_path: self.repo_path@, repo_name: self.repo_name@ }
    }
}

impl Clone for BranchContext {
    fn clone(&self) -> (context: Self)
        ensures
            context.deep_view() == self.deep_view(),
    {
        BranchContext { repo_path: self.repo_path.clone(), repo_name: self.repo_name.clone() }
    }
}

/// What is known of the checkouts that are open in workspaces, and for which visit.
#[derive(Debug, PartialEq, Eq)]
pub enum OpenWorktreeLoadState {
    Unknown,
    Loaded { repo_path: PathBuf, generation: u64 },
    Failed { repo_path: PathBuf, generation: u64 },
}

#[verifier::ext_equal]
pub enum OpenWorktreeLoadStateV {
    Unknown,
    Loaded { repo_path: Seq<u8>, generation: u64 },
    Failed { repo_path: Seq<u8>, generation: u64 },
}

impl DeepView for OpenWorktreeLoadState {
    type V = OpenWorktreeLoadStateV;

    open spec fn deep_view(&self) -> OpenWorktreeLoadStateV {
        match self {
            OpenWorktreeLoadState::Unknown => OpenWorktreeLoadStateV::Unknown,
            OpenWorktreeLoadState::Loaded { repo_path, generation } =>
                OpenWorktreeLoadStateV::Loaded {
                repo_path: repo_path@,
                generation: *generation,
            },
            OpenWorktreeLoadState::Failed { repo_path, generation } =>
                OpenWorktreeLoadStateV::Failed {
                repo_path: repo_path@,
                generation: *generation,
            },
        }
    }
}

/// The branches of one remote.
#[derive(Debug, PartialEq, Eq)]
pub struct RemoteBranches {
    pub remote: String,
    pub branches: Vec<BranchEntry>,
}

#[verifier::ext_equal]
pub struct RemoteBranchesV {
    pub remote: Seq<char>,
    pub branches: Seq<BranchEntryV>,
}

impl DeepView for RemoteBranches {
    type V = RemoteBranchesV;

    open spec fn deep_view(&self) -> RemoteBranchesV {
        RemoteBranchesV { remote: self.remote@, branches: self.branches.deep_view() }
    }
}

#[derive(Debug, PartialEq, Eq)]
pub struct BranchViewState {
    pub entries: Vec<BranchEntry>,
    pub list: SearchableList,
    pub loading: bool,
    pub filter_generation: u64,
    /// Counts the visits, so that what an earlier one asked for is told apart.
    pub generation: u64,
    pub pending_selection: Option<BranchId>,
    pub open_worktrees: Vec<WorktreeInfo>,
    pub open_worktree_load_state: OpenWorktreeLoadState,
    /// What each remote has, by the name of the remote.
    pub remote_branches: Vec<RemoteBranches>,
    pub fetching_remote_repo: Option<PathBuf>,
    pub fetch_warning_remotes: Vec<String>,
    pub unsupported_ref_warning_generation: Option<u64>,
    pub path_rules: PathRules,
}

#[verifier::ext_equal]
pub struct BranchViewV {
    pub entries: Seq<BranchEntryV>,
    pub list: SearchableListV,
    pub loading: bool,
    pub filter_generation: u64,
    pub generation: u64,
    pub pending_selection: Option<BranchIdV>,
    pub open_worktrees: Seq<WorktreeInfoV>,
    pub open_worktree_load_state: OpenWorktreeLoadStateV,
    pub remote_branches: Seq<RemoteBranchesV>,
    pub fetching_remote_repo: Option<Seq<u8>>,
    pub fetch_warning_remotes: Seq<Seq<char>>,
    pub unsupported_ref_warning_generation: Option<u64>,
    pub path_rules: PathRules,
}

impl DeepView for BranchViewState {
    type V = BranchViewV;

    open spec fn deep_view(&self) -> BranchViewV {
        BranchViewV {
            entries: self.entries.deep_view(),
            list: self.list.deep_view(),
            loading: self.loading,
            filter_generation: self.filter_generation,
            generation: self.generation,
            pending_selection: self.pending_selection.deep_view(),
            open_worktrees: self.open_worktrees.deep_view(),
            open_worktree_load_state: self.open_worktree_load_state.deep_view(),
            remote_branches: self.remote_branches.deep_view(),
            fetching_remote_repo: self.fetching_remote_repo.deep_view(),
            fetch_warning_remotes: self.fetch_warning_remotes.deep_view(),
            unsupported_ref_warning_generation: self.unsupported_ref_warning_generation,
            path_rules: self.path_rules,
        }
    }
}

impl BranchViewV {
    /// Nothing loaded yet.
    pub open spec fn fresh() -> BranchViewV {
        BranchViewV {
            entries: Seq::empty(),
            list: SearchableListV::fresh(0),
            loading: false,
            filter_generation: 0,
            generation: 0,
            pending_selection: None,
            open_worktrees: Seq::empty(),
            open_worktree_load_state: OpenWorktreeLoadStateV::Unknown,
            remote_branches: Seq::empty(),
            fetching_remote_repo: None,
            fetch_warning_remotes: Seq::empty(),
            unsupported_ref_warning_generation: None,
            path_rules: PathRules::Unix,
        }
    }
}

impl Default for BranchViewState {
    fn default() -> (view: Self)
        ensures
            view.deep_view() == BranchViewV::fresh(),
    {
        let view = BranchViewState {
            entries: Vec::new(),
            list: SearchableList::new(0),
            loading: false,
            filter_generation: 0,
            generation: 0,
            pending_selection: None,
            open_worktrees: Vec::new(),
            open_worktree_load_state: OpenWorktreeLoadState::Unknown,
            remote_branches: Vec::new(),
            fetching_remote_repo: None,
            fetch_warning_remotes: Vec::new(),
            unsupported_ref_warning_generation: None,
            path_rules: PathRules::Unix,
        };
        assert(view.deep_view() =~= BranchViewV::fresh());
        view
    }
}

/// What the rows stand for.
pub open spec fn ids_of(entries: Seq<BranchEntryV>) -> Seq<BranchIdV> {
    entries.map_values(|entry: BranchEntryV| entry.id())
}

pub open spec fn has_id(entries: Seq<BranchEntryV>, id: BranchIdV) -> bool {
    exists|i: int| 0 <= i < entries.len() && (#[trigger] entries[i]).id() == id
}

/// The branches of a remote with those added that were not known yet.
pub open spec fn grown(known: Seq<BranchEntryV>, incoming: Seq<BranchEntryV>) -> Seq<BranchEntryV>
    decreases incoming.len(),
{
    if incoming.len() == 0 {
        known
    } else {
        let before = grown(known, incoming.drop_last());
        if has_id(before, incoming.last().id()) {
            before
        } else {
            before.push(incoming.last())
        }
    }
}

/// What is known of a remote.
pub open spec fn snapshot_of(remotes: Seq<RemoteBranchesV>, remote: Seq<char>) -> Seq<BranchEntryV>
    decreases remotes.len(),
{
    if remotes.len() == 0 {
        Seq::empty()
    } else if remotes[0].remote == remote {
        remotes[0].branches
    } else {
        snapshot_of(remotes.drop_first(), remote)
    }
}

/// Remotes before which a name belongs are left where they are.
pub open spec fn place_of_remote(remotes: Seq<RemoteBranchesV>, remote: Seq<char>) -> int
    decreases remotes.len(),
{
    if remotes.len() == 0 || remotes[0].remote == remote || rank_text(remote, remotes[0].remote)
        == Rank::Less {
        0
    } else {
        1 + place_of_remote(remotes.drop_first(), remote)
    }
}

/// The remotes by name, with what is known of one of them replaced or put in its place.
pub open spec fn with_remote(
    remotes: Seq<RemoteBranchesV>,
    remote: Seq<char>,
    branches: Seq<BranchEntryV>,
) -> Seq<RemoteBranchesV> {
    let place = place_of_remote(remotes, remote);
    let added = RemoteBranchesV { remote, branches };
    if place < remotes.len() && remotes[place].remote == remote {
        remotes.update(place, added)
    } else {
        remotes.insert(place, added)
    }
}

/// The rows of local branches.
pub open spec fn local_rows(entries: Seq<BranchEntryV>) -> Seq<BranchEntryV>
    decreases entries.len(),
{
    if entries.len() == 0 {
        entries
    } else {
        let before = local_rows(entries.drop_last());
        if entries.last().remote is None {
            before.push(entries.last())
        } else {
            before
        }
    }
}

/// Whether a local branch has a name.
pub open spec fn has_local(entries: Seq<BranchEntryV>, name: Seq<char>) -> bool {
    exists|i: int|
        0 <= i < entries.len() && (#[trigger] entries[i]).remote is None && entries[i].name
            == name
}

/// The branches that are not shadowed by a local one.
pub open spec fn unshadowed(branches: Seq<BranchEntryV>, rows: Seq<BranchEntryV>) -> Seq<
    BranchEntryV,
>
    decreases branches.len(),
{
    if branches.len() == 0 {
        branches
    } else {
        let before = unshadowed(branches.drop_last(), rows);
        if has_local(rows, branches.last().name) {
            before
        } else {
            before.push(branches.last())
        }
    }
}

/// What the remotes add to the list, remote by remote.
pub open spec fn remote_rows(remotes: Seq<RemoteBranchesV>, rows: Seq<BranchEntryV>) -> Seq<
    BranchEntryV,
>
    decreases remotes.len(),
{
    if remotes.len() == 0 {
        Seq::empty()
    } else {
        remote_rows(remotes.drop_last(), rows) + unshadowed(remotes.last().branches, rows)
    }
}

/// The branches that do not have a name.
pub open spec fn without_name(branches: Seq<BranchEntryV>, name: Seq<char>) -> Seq<BranchEntryV>
    decreases branches.len(),
{
    if branches.len() == 0 {
        branches
    } else {
        let before = without_name(branches.drop_last(), name);
        if branches.last().name == name {
            before
        } else {
            before.push(branches.last())
        }
    }
}

/// The rows but the remote ones that have a name.
pub open spec fn without_remote_name(entries: Seq<BranchEntryV>, name: Seq<char>) -> Seq<
    BranchEntryV,
>
    decreases entries.len(),
{
    if entries.len() == 0 {
        entries
    } else {
        let before = without_remote_name(entries.drop_last(), name);
        if entries.last().remote is Some && entries.last().name == name {
            before
        } else {
            before.push(entries.last())
        }
    }
}

impl BranchViewV {
    pub open spec fn selected(self) -> Option<BranchEntryV> {
        match selected_index(self.list, self.entries.len()) {
            Some(index) => Some(self.entries[index]),
            None => None,
        }
    }

    pub open spec fn without_remotes(self) -> BranchViewV {
        BranchViewV {
            remote_branches: Seq::empty(),
            fetching_remote_repo: None,
            fetch_warning_remotes: Seq::empty(),
            ..self
        }
    }

    /// What a remote has taken in: known branches stay, local ones shadow remote ones.
    pub open spec fn with_snapshot(self, remote: Seq<char>, incoming: Seq<BranchEntryV>) -> BranchViewV {
        let remotes = with_remote(
            self.remote_branches,
            remote,
            sorted_branches(grown(snapshot_of(self.remote_branches, remote), incoming)),
        );
        let locals = local_rows(self.entries);
        BranchViewV {
            remote_branches: remotes,
            entries: sorted_branches(locals + remote_rows(remotes, locals)),
            ..self
        }
    }

    /// A local branch in place of the remote ones of its name.
    pub open spec fn promoted(self, name: Seq<char>) -> BranchViewV {
        let kept = without_remote_name(self.entries, name);
        BranchViewV {
            remote_branches: self.remote_branches.map_values(
                |known: RemoteBranchesV|
                    RemoteBranchesV {
                        branches: without_name(known.branches, name),
                        ..known
                    },
            ),
            entries: sorted_branches(
                if has_local(kept, name) {
                    kept
                } else {
                    kept.push(BranchEntryV::plain(name, None))
                },
            ),
            ..self
        }
    }

    /// The rows with their markers taken from the open checkouts.
    pub open spec fn marked_open(self) -> BranchViewV {
        BranchViewV {
            entries: self.entries.map_values(
                |entry: BranchEntryV|
                    entry.with_open_worktrees(self.open_worktrees, self.path_rules),
            ),
            ..self
        }
    }
}

fn contains_id(entries: &Vec<BranchEntry>, id: &BranchId) -> (answer: bool)
    ensures
        answer == has_id(entries.deep_view(), id.deep_view()),
{
    let mut i: usize = 0;
    while i < entries.len()
        invariant
            i <= entries.len(),
            forall|k: int|
                0 <= k < i ==> (#[trigger] entries.deep_view()[k]).id() != id.deep_view(),
        decreases entries.len() - i,
    {
        let own = entries[i].id();
        if own.same(id) {
            assert(entries.deep_view()[i as int].id() == id.deep_view());
            return true;
        }
        i = i + 1;
    }
    false
}

fn contains_local(entries: &Vec<BranchEntry>, name: &str) -> (answer: bool)
    ensures
        answer == has_local(entries.deep_view(), name@),
{
    let mut i: usize = 0;
    while i < entries.len()
        invariant
            i <= entries.len(),
            forall|k: int|
                0 <= k < i ==> !((#[trigger] entries.deep_view()[k]).remote is None
                    && entries.deep_view()[k].name == name@),
        decreases entries.len() - i,
    {
        if entries[i].remote.is_none() && same_text(entries[i].name.as_str(), name) {
            assert(entries.deep_view()[i as int].name == name@);
            return true;
        }
        i = i + 1;
    }
    false
}

#[verifier::loop_isolation(false)]
fn grow(known: Vec<BranchEntry>, incoming: &Vec<BranchEntry>) -> (all: Vec<BranchEntry>)
    ensures
        all.deep_view() == grown(known.deep_view(), incoming.deep_view()),
{
    let ghost wanted = incoming.deep_view();
    let ghost start = known.deep_view();
    let mut all: Vec<BranchEntry> = known;
    let mut i: usize = 0;
    assert(all.deep_view() =~= grown(start, wanted.take(0)));
    while i < incoming.len()
        invariant
            i <= incoming.len(),
            all.deep_view() == grown(start, wanted.take(i as int)),
        decreases incoming.len() - i,
    {
        let ghost before = all.deep_view();
        proof {
            assert(wanted.take(i + 1).drop_last() =~= wanted.take(i as int));
            assert(wanted.take(i + 1).last() == incoming@[i as int].deep_view());
        }
        let id = incoming[i].id();
        if !contains_id(&all, &id) {
            let entry = incoming[i].clone();
            let ghost added = entry.deep_view();
            all.push(entry);
            assert(all.deep_view() =~= before.push(added));
        }
        i = i + 1;
    }
    assert(wanted.take(wanted.len() as int) =~= wanted);
    all
}

fn find_place_of_remote(remotes: &Vec<RemoteBranches>, remote: &str) -> (place: usize)
    ensures
        place as int == place_of_remote(remotes.deep_view(), remote@),
        place <= remotes@.len(),
{
    let ghost all = remotes.deep_view();
    let mut i: usize = 0;
    assert(all.skip(0) =~= all);
    while i < remotes.len()
        invariant
            i <= remotes.len(),
            all == remotes.deep_view(),
            place_of_remote(all, remote@) == i + place_of_remote(all.skip(i as int), remote@),
        decreases remotes.len() - i,
    {
        proof {
            assert(all.skip(i as int)[0] == remotes@[i as int].deep_view());
            assert(all.skip(i as int).drop_first() =~= all.skip(i + 1));
        }
        let rank = compare_text(remote, remotes[i].remote.as_str());
        if same_text(remotes[i].remote.as_str(), remote) || rank == Rank::Less {
            return i;
        }
        i = i + 1;
    }
    assert(all.skip(i as int) =~= Seq::<RemoteBranchesV>::empty());
    i
}

fn copy_snapshot(remotes: &Vec<RemoteBranches>, remote: &str) -> (branches: Vec<BranchEntry>)
    ensures
        branches.deep_view() == snapshot_of(remotes.deep_view(), remote@),
{
    let ghost all = remotes.deep_view();
    let mut i: usize = 0;
    assert(all.skip(0) =~= all);
    while i < remotes.len()
        invariant
            i <= remotes.len(),
            all == remotes.deep_view(),
            snapshot_of(all, remote@) == snapshot_of(all.skip(i as int), remote@),
        decreases remotes.len() - i,
    {
        proof {
            assert(all.skip(i as int)[0] == remotes@[i as int].deep_view());
            assert(all.skip(i as int).drop_first() =~= all.skip(i + 1));
        }
        if same_text(remotes[i].remote.as_str(), remote) {
            return copy_entries(&remotes[i].branches);
        }
        i = i + 1;
    }
    assert(all.skip(i as int) =~= Seq::<RemoteBranchesV>::empty());
    let none: Vec<BranchEntry> = Vec::new();
    assert(none.deep_view() =~= Seq::<BranchEntryV>::empty());
    none
}

fn put_remote(remotes: &mut Vec<RemoteBranches>, remote: String, branches: Vec<BranchEntry>)
    ensures
        final(remotes).deep_view() == with_remote(
            old(remotes).deep_view(),
            remote@,
            branches.deep_view(),
        ),
{
    let ghost start = remotes.deep_view();
    let place = find_place_of_remote(remotes, remote.as_str());
    if place < remotes.len() && same_text(remotes[place].remote.as_str(), remote.as_str()) {
        let known = RemoteBranches { remote, branches };
        let ghost added = known.deep_view();
        remotes.set(place, known);
        assert(remotes.deep_view() =~= start.update(place as int, added));
    } else {
        let known = RemoteBranches { remote, branches };
        let ghost added = known.deep_view();
        remotes.insert(place, known);
        assert(remotes.deep_view() =~= start.insert(place as int, added));
    }
}

#[verifier::loop_isolation(false)]
pub fn keep_locals(entries: &Vec<BranchEntry>) -> (locals: Vec<BranchEntry>)
    ensures
        locals.deep_view() == local_rows(entries.deep_view()),
{
    let ghost all = entries.deep_view();
    let mut locals: Vec<BranchEntry> = Vec::new();
    let mut i: usize = 0;
    assert(locals.deep_view() =~= local_rows(all.take(0)));
    while i < entries.len()
        invariant
            i <= entries.len(),
            locals.deep_view() == local_rows(all.take(i as int)),
        decreases entries.len() - i,
    {
        let ghost before = locals.deep_view();
        proof {
            assert(all.take(i + 1).drop_last() =~= all.take(i as int));
            assert(all.take(i + 1).last() == entries@[i as int].deep_view());
        }
        if entries[i].remote.is_none() {
            let entry = entries[i].clone();
            let ghost added = entry.deep_view();
            locals.push(entry);
            assert(locals.deep_view() =~= before.push(added));
        }
        i = i + 1;
    }
    assert(all.take(all.len() as int) =~= all);
    locals
}

/// Adds the branches that no local one shadows.
#[verifier::loop_isolation(false)]
fn add_unshadowed(rows: &mut Vec<BranchEntry>, branches: &Vec<BranchEntry>, locals: &Vec<BranchEntry>)
    ensures
        final(rows).deep_view() == old(rows).deep_view() + unshadowed(
            branches.deep_view(),
            locals.deep_view(),
        ),
{
    let ghost start = rows.deep_view();
    let ghost all = branches.deep_view();
    let mut i: usize = 0;
    assert(rows.deep_view() =~= start + unshadowed(all.take(0), locals.deep_view()));
    while i < branches.len()
        invariant
            i <= branches.len(),
            rows.deep_view() == start + unshadowed(all.take(i as int), locals.deep_view()),
        decreases branches.len() - i,
    {
        let ghost before = rows.deep_view();
        let ghost taken = unshadowed(all.take(i as int), locals.deep_view());
        proof {
            assert(all.take(i + 1).drop_last() =~= all.take(i as int));
            assert(all.take(i + 1).last() == branches@[i as int].deep_view());
        }
        if !contains_local(locals, branches[i].name.as_str()) {
            let entry = branches[i].clone();
            let ghost added = entry.deep_view();
            rows.push(entry);
            assert(rows.deep_view() =~= before.push(added));
            assert(before.push(added) =~= start + taken.push(added));
        }
        i = i + 1;
    }
    assert(all.take(all.len() as int) =~= all);
}

#[verifier::loop_isolation(false)]
fn merge_rows(locals: Vec<BranchEntry>, remotes: &Vec<RemoteBranches>) -> (rows: Vec<BranchEntry>)
    ensures
        rows.deep_view() == locals.deep_view() + remote_rows(
            remotes.deep_view(),
            locals.deep_view(),
        ),
{
    let ghost own = locals.deep_view();
    let ghost all = remotes.deep_view();
    let mut rows = copy_entries(&locals);
    let mut i: usize = 0;
    assert(rows.deep_view() =~= own + remote_rows(all.take(0), own));
    while i < remotes.len()
        invariant
            i <= remotes.len(),
            rows.deep_view() == own + remote_rows(all.take(i as int), own),
        decreases remotes.len() - i,
    {
        proof {
            assert(all.take(i + 1).drop_last() =~= all.take(i as int));
            assert(all.take(i + 1).last() == remotes@[i as int].deep_view());
        }
        let ghost before = remote_rows(all.take(i as int), own);
        add_unshadowed(&mut rows, &remotes[i].branches, &locals);
        assert(rows.deep_view() =~= own + (before + unshadowed(
            remotes@[i as int].branches.deep_view(),
            own,
        )));
        i = i + 1;
    }
    assert(all.take(all.len() as int) =~= all);
    rows
}

#[verifier::loop_isolation(false)]
fn drop_name(branches: &Vec<BranchEntry>, name: &str) -> (kept: Vec<BranchEntry>)
    ensures
        kept.deep_view() == without_name(branches.deep_view(), name@),
{
    let ghost all = branches.deep_view();
    let mut kept: Vec<BranchEntry> = Vec::new();
    let mut i: usize = 0;
    assert(kept.deep_view() =~= without_name(all.take(0), name@));
    while i < branches.len()
        invariant
            i <= branches.len(),
            kept.deep_view() == without_name(all.take(i as int), name@),
        decreases branches.len() - i,
    {
        let ghost before = kept.deep_view();
        proof {
            assert(all.take(i + 1).drop_last() =~= all.take(i as int));
            assert(all.take(i + 1).last() == branches@[i as int].deep_view());
        }
        if !same_text(branches[i].name.as_str(), name) {
            let entry = branches[i].clone();
            let ghost added = entry.deep_view();
            kept.push(entry);
            assert(kept.deep_view() =~= before.push(added));
        }
        i = i + 1;
    }
    assert(all.take(all.len() as int) =~= all);
    kept
}

#[verifier::loop_isolation(false)]
fn drop_remote_name(entries: &Vec<BranchEntry>, name: &str) -> (kept: Vec<BranchEntry>)
    ensures
        kept.deep_view() == without_remote_name(entries.deep_view(), name@),
{
    let ghost all = entries.deep_view();
    let mut kept: Vec<BranchEntry> = Vec::new();
    let mut i: usize = 0;
    assert(kept.deep_view() =~= without_remote_name(all.take(0), name@));
    while i < entries.len()
        invariant
            i <= entries.len(),
            kept.deep_view() == without_remote_name(all.take(i as int), name@),
        decreases entries.len() - i,
    {
        let ghost before = kept.deep_view();
        proof {
            assert(all.take(i + 1).drop_last() =~= all.take(i as int));
            assert(all.take(i + 1).last() == entries@[i as int].deep_view());
        }
        if !(entries[i].remote.is_some() && same_text(entries[i].name.as_str(), name)) {
            let entry = entries[i].clone();
            let ghost added = entry.deep_view();
            kept.push(entry);
            assert(kept.deep_view() =~= before.push(added));
        }
        i = i + 1;
    }
    assert(all.take(all.len() as int) =~= all);
    kept
}

impl BranchViewState {
    /// The selected row.
    pub fn selected(&self) -> (entry: Option<&BranchEntry>)
        ensures
            entry.deep_view() == self.deep_view().selected(),
    {
        match selected_item(&self.list, self.entries.len()) {
            Some(index) => Some(&self.entries[index]),
            None => None,
        }
    }

    /// Forgets what the remotes have.
    pub fn reset_remotes(&mut self)
        ensures
            final(self).deep_view() == old(self).deep_view().without_remotes(),
    {
        self.remote_branches = Vec::new();
        self.fetching_remote_repo = None;
        self.fetch_warning_remotes = Vec::new();
        assert(self.deep_view() =~= old(self).deep_view().without_remotes());
    }

    /// Takes in what a remote has.
    pub fn merge_remote_snapshot(&mut self, remote: String, incoming: Vec<BranchEntry>)
        ensures
            final(self).deep_view() == old(self).deep_view().with_snapshot(
                remote@,
                incoming.deep_view(),
            ),
    {
        let ghost start = self.deep_view();
        let ghost wanted = start.with_snapshot(remote@, incoming.deep_view());
        let known = copy_snapshot(&self.remote_branches, remote.as_str());
        let branches = BranchEntry::sort(grow(known, &incoming));
        put_remote(&mut self.remote_branches, remote, branches);
        let locals = keep_locals(&self.entries);
        let merged = merge_rows(locals, &self.remote_branches);
        self.entries = BranchEntry::sort(merged);
        assert(self.deep_view() =~= wanted);
    }

    /// Puts a local branch in place of the remote ones of its name.
    #[verifier::loop_isolation(false)]
    pub fn promote_remote_to_local(&mut self, branch_name: &str)
        ensures
            final(self).deep_view() == old(self).deep_view().promoted(branch_name@),
    {
        let ghost start = self.deep_view();
        let ghost wanted = start.promoted(branch_name@);
        let mut remotes: Vec<RemoteBranches> = Vec::new();
        let mut i: usize = 0;
        while i < self.remote_branches.len()
            invariant
                i <= self.remote_branches.len(),
                self.deep_view() == start,
                remotes@.len() == i,
                forall|k: int|
                    0 <= k < i ==> (#[trigger] remotes@[k]).deep_view()
                        == wanted.remote_branches[k],
            decreases self.remote_branches.len() - i,
        {
            let kept = RemoteBranches {
                remote: self.remote_branches[i].remote.clone(),
                branches: drop_name(&self.remote_branches[i].branches, branch_name),
            };
            assert(self.remote_branches@[i as int].deep_view() == start.remote_branches[i as int]);
            assert(kept.deep_view() == wanted.remote_branches[i as int]);
            remotes.push(kept);
            i = i + 1;
        }
        assert(remotes.deep_view() =~= wanted.remote_branches);
        let mut entries = drop_remote_name(&self.entries, branch_name);
        let ghost kept = entries.deep_view();
        if !contains_local(&entries, branch_name) {
            let entry = BranchEntry::plain(owned(branch_name), None);
            let ghost added = entry.deep_view();
            entries.push(entry);
            assert(entries.deep_view() =~= kept.push(added));
        }
        self.remote_branches = remotes;
        self.entries = BranchEntry::sort(entries);
        assert(self.deep_view() =~= wanted);
    }

    /// Takes the markers of the rows from the open checkouts.
    #[verifier::loop_isolation(false)]
    pub fn apply_open_indicators(&mut self)
        ensures
            final(self).deep_view() == old(self).deep_view().marked_open(),
    {
        let ghost start = self.deep_view();
        let ghost wanted = start.marked_open();
        let mut entries: Vec<BranchEntry> = Vec::new();
        let listed: &[WorktreeInfo] = self.open_worktrees.as_slice();
        assert(listed.deep_view() =~= start.open_worktrees);
        let mut i: usize = 0;
        while i < self.entries.len()
            invariant
                i <= self.entries.len(),
                self.deep_view() == start,
                entries@.len() == i,
                forall|k: int|
                    0 <= k < i ==> (#[trigger] entries@[k]).deep_view() == wanted.entries[k],
            decreases self.entries.len() - i,
        {
            let mut entry = self.entries[i].clone();
            entry.apply_open_worktrees(listed, self.path_rules);
            assert(self.entries@[i as int].deep_view() == start.entries[i as int]);
            assert(entry.deep_view() == wanted.entries[i as int]);
            entries.push(entry);
            i = i + 1;
        }
        assert(entries.deep_view() =~= wanted.entries);
        self.entries = entries;
        assert(self.deep_view() =~= wanted);
    }

    /// Takes in that a remote could not be fetched; `false` where that was known.
    pub fn record_fetch_warning(&mut self, remote: String) -> (first: bool)
        ensures
            first == first_failure(old(self).deep_view(), remote@),
            final(self).deep_view() == after_call(
                old(self).deep_view(),
                ViewCall::RecordFetchWarning { remote: remote@ },
            ),
    {
        let ghost start = self.deep_view();
        let known: &[String] = self.fetch_warning_remotes.as_slice();
        assert(known.deep_view() =~= start.fetch_warning_remotes);
        if has_text(known, remote.as_str()) {
            return false;
        }
        let ghost added = remote@;
        self.fetch_warning_remotes.push(remote);
        assert(self.fetch_warning_remotes.deep_view() =~= start.fetch_warning_remotes.push(added));
        true
    }

    /// Whether it is to be told that names were left out: once for each visit.
    pub fn should_warn_unsupported_refs(&mut self, generation: u64, skipped: bool) -> (warn: bool)
        ensures
            warn == warns_of_refs(old(self).deep_view(), generation, skipped),
            final(self).deep_view() == after_call(
                old(self).deep_view(),
                ViewCall::ShouldWarnUnsupportedRefs { generation, skipped },
            ),
    {
        let warned = match self.unsupported_ref_warning_generation {
            Some(last) => last == generation,
            None => false,
        };
        if skipped && !warned {
            self.unsupported_ref_warning_generation = Some(generation);
            true
        } else {
            false
        }
    }

    /// Forgets what the remotes have, but not that they are being fetched.
    pub fn clear_remote_snapshots(&mut self)
        ensures
            final(self).deep_view() == (BranchViewV {
                remote_branches: Seq::empty(),
                ..old(self).deep_view()
            }),
    {
        self.remote_branches = Vec::new();
        assert(self.remote_branches.deep_view() =~= Seq::<RemoteBranchesV>::empty());
    }

    pub fn remote_snapshots_are_empty(&self) -> (answer: bool)
        ensures
            answer == (self.deep_view().remote_branches.len() == 0),
    {
        self.remote_branches.len() == 0
    }
}

/// Whether the branch list of a repository is shown.
pub open spec fn shows_repo(mode: ModeV, repo_path: Seq<u8>, rules: PathRules) -> bool {
    match mode {
        ModeV::BranchSelect(context) => same_path(context.repo_path, repo_path, rules),
        _ => false,
    }
}

pub fn matches_repo(state: &AppState, repo_path: &PathBuf) -> (answer: bool)
    ensures
        answer == shows_repo(state.deep_view().mode, repo_path@, state.repo_view.path_rules),
{
    let rules = state.repo_view.path_rules;
    match &state.mode {
        Mode::BranchSelect(context) => equal_paths(&context.repo_path, repo_path, rules),
        _ => false,
    }
}

/// Whether the screen belongs to a repository.
pub open spec fn belongs_to(mode: ModeV, repo_path: Seq<u8>, rules: PathRules) -> bool {
    match mode.context() {
        Some(context) => same_path(context.repo_path, repo_path, rules),
        None => false,
    }
}

/// Whether an answer belongs to this visit of the branch list of its repository.
pub open spec fn of_this_visit(state: AppStateV, repo_path: Seq<u8>, generation: u64) -> bool {
    let rules = state.repo_view.path_rules;
    belongs_to(state.mode, repo_path, rules) && state.branch_view.generation == generation
}

fn branch_context_matches(state: &AppState, repo_path: &PathBuf) -> (answer: bool)
    ensures
        answer == belongs_to(state.deep_view().mode, repo_path@, state.repo_view.path_rules),
{
    let rules = state.repo_view.path_rules;
    match state.branch_context() {
        Some(context) => equal_paths(&context.repo_path, repo_path, rules),
        None => false,
    }
}

fn branch_context_generation_matches(state: &AppState, repo_path: &PathBuf, generation: u64) -> (
    answer: bool)
    ensures
        answer == of_this_visit(state.deep_view(), repo_path@, generation),
{
    branch_context_matches(state, repo_path) && state.branch_view.generation == generation
}

/// The matches that stand for branches.
pub open spec fn branch_matches(matches: Seq<(FilterKeyV, i64)>) -> Seq<(BranchIdV, i64)>
    decreases matches.len(),
{
    if matches.len() == 0 {
        Seq::empty()
    } else {
        let before = branch_matches(matches.drop_last());
        match matches.last().0 {
            FilterKeyV::Branch(id) => before.push((id, matches.last().1)),
            _ => before,
        }
    }
}

pub open spec fn branch_key(key: Option<FilterKeyV>) -> Option<BranchIdV> {
    match key {
        Some(FilterKeyV::Branch(id)) => Some(id),
        _ => None,
    }
}

pub open spec fn names_of(entries: Seq<BranchEntryV>) -> Seq<Seq<char>> {
    entries.map_values(|entry: BranchEntryV| entry.name)
}

impl BranchViewV {
    pub open spec fn with_filter(
        self,
        matches: Seq<(FilterKeyV, i64)>,
        selected: Option<FilterKeyV>,
    ) -> BranchViewV {
        let rules = self.path_rules;
        BranchViewV {
            list: with_matches::<BranchId>(
                self.list,
                ids_of(self.entries),
                branch_matches(matches),
                branch_key(selected),
                rules,
            ),
            ..self
        }
    }

    /// A list that keeps what it shows and what is selected while its rows change.
    pub open spec fn list_carried(self, after: Seq<BranchEntryV>) -> SearchableListV {
        let rules = self.path_rules;
        let ids = ids_of(self.entries);
        let rows = rows_of::<BranchId>(ids_of(after), shown_keys(ids, self.list.filtered), rules);
        SearchableListV {
            filtered: rows,
            selected: or_first(
                position_of::<BranchId>(ids_of(after), rows, selected_key(self.list, ids), rules),
                rows.len(),
            ),
            ..self.list
        }
    }

    /// What a remote has taken in, with the list kept as it is until it is filtered anew.
    pub open spec fn with_remote_branches(self, remote: Seq<char>, incoming: Seq<BranchEntryV>) -> BranchViewV {
        let after = self.with_snapshot(remote, incoming);
        BranchViewV { list: self.list_carried(after.entries), ..after }
    }
}

impl TickChangesV {
    /// The selection that the next filter is to keep: the first one that was noted.
    pub open spec fn pinning(self, view: BranchViewV) -> TickChangesV {
        TickChangesV {
            pinned_branch_selection: match self.pinned_branch_selection {
                Some(id) => Some(id),
                None => selected_key(view.list, ids_of(view.entries)),
            },
            ..self
        }
    }
}

impl AppStateV {
    /// It is told once for each visit that names were left out.
    pub open spec fn refs_warned(self, generation: u64, skipped: bool) -> AppStateV {
        if skipped && self.branch_view.unsupported_ref_warning_generation != Some(generation) {
            AppStateV {
                branch_view: BranchViewV {
                    unsupported_ref_warning_generation: Some(generation),
                    ..self.branch_view
                },
                ..self
            }.told(ToastKind::Warning, UNSUPPORTED_REF_WARNING@)
        } else {
            self
        }
    }

    pub open spec fn with_branches(self, view: BranchViewV) -> AppStateV {
        AppStateV { branch_view: view, ..self }
    }
}

/// The branches of the repository that is shown have been listed.
pub open spec fn after_branches_loaded(
    state: AppStateV,
    changes: TickChangesV,
    repo_path: Seq<u8>,
    generation: u64,
    branches: Seq<BranchEntryV>,
    worktrees: Seq<WorktreeV>,
    skipped: bool,
    now: u64,
) -> (AppStateV, TickChangesV) {
    let listed = AppStateV {
        repo_view: state.repo_view.with_worktrees(repo_path, worktrees),
        branch_view: BranchViewV {
            entries: branches,
            remote_branches: Seq::empty(),
            pending_selection: None,
            loading: false,
            fetching_remote_repo: Some(repo_path),
            ..state.branch_view
        }.marked_open(),
        ..state
    };
    let settled = listed.reconciled(repo_path, now);
    (
        settled.refs_warned(generation, skipped),
        TickChangesV {
            pinned_branch_selection: match state.branch_view.pending_selection {
                Some(id) => Some(id),
                None => changes.pinned_branch_selection,
            },
            start_remote_loading: Some(
                RemoteLoadingV { repo_path, generation, local_names: names_of(branches) },
            ),
            branches_changed: true,
            resume_pending_deletes: open_state_known(state.branch_view, repo_path),
            save_pending: changes.save_pending || settled.delete.pending.len()
                != state.delete.pending.len(),
            ..changes
        },
    )
}

/// The known branches of a remote have been listed.
pub open spec fn after_remote_loaded(
    state: AppStateV,
    changes: TickChangesV,
    remote: Seq<char>,
    branches: Seq<BranchEntryV>,
) -> (AppStateV, TickChangesV) {
    (
        state.with_branches(
            state.branch_view.with_remote_branches(remote, branches).marked_open(),
        ),
        TickChangesV { branches_changed: true, ..changes.pinning(state.branch_view) },
    )
}

pub open spec fn fetch_problem(remote: Seq<char>, error: Seq<char>) -> Seq<char> {
    "could not fetch remote "@ + remote + ": "@ + error
}

/// A remote has been fetched, or could not be: that is told once for each remote.
pub open spec fn after_remote_fetched(
    state: AppStateV,
    changes: TickChangesV,
    remote: Seq<char>,
    branches: Seq<BranchEntryV>,
    error: Option<Seq<char>>,
) -> (AppStateV, TickChangesV) {
    let (merged, changed) = after_remote_loaded(state, changes, remote, branches);
    (
        match error {
            Some(error) => if merged.branch_view.fetch_warning_remotes.contains(remote) {
                merged
            } else {
                merged.with_branches(
                    BranchViewV {
                        fetch_warning_remotes: merged.branch_view.fetch_warning_remotes.push(
                            remote,
                        ),
                        ..merged.branch_view
                    },
                ).told(ToastKind::Warning, fetch_problem(remote, error))
            },
            None => merged,
        },
        changed,
    )
}

/// A step of fetching is done. The last one ends the indicator.
pub open spec fn after_fetch(
    state: AppStateV,
    changes: TickChangesV,
    remote: Option<Seq<char>>,
    branches: Seq<BranchEntryV>,
    repo_path: Seq<u8>,
    generation: u64,
    error: Option<Seq<char>>,
    is_final: bool,
    skipped: bool,
) -> (AppStateV, TickChangesV) {
    let rules = state.repo_view.path_rules;
    let (fetched, changed) = match remote {
        Some(remote) => after_remote_fetched(state, changes, remote, branches, error),
        None => match error {
            Some(error) => (state.told(ToastKind::Warning, error), changes),
            None => (state, changes),
        },
    };
    let view = fetched.branch_view;
    let done = if is_final && view.fetching_remote_repo is Some && same_path(
        view.fetching_remote_repo->0,
        repo_path,
        rules,
    ) {
        fetched.with_branches(BranchViewV { fetching_remote_repo: None, ..view })
    } else {
        fetched
    };
    (done.refs_warned(generation, skipped), changed)
}

pub open spec fn tracking_message(name: Seq<char>, created: bool, message: Seq<char>) -> Seq<char> {
    if created {
        "Tracking branch "@ + name + " was created, but its checkout could not be opened: "@
            + message
    } else {
        "Local branch "@ + name + " now exists, but its checkout could not be opened: "@ + message
    }
}

/// Opening a branch failed: the branch list comes back. Where the local branch is there by
/// now, the list is loaded anew with that branch selected.
pub open spec fn after_operation_failed(
    state: AppStateV,
    changes: TickChangesV,
    repo_path: Seq<u8>,
    failure: BranchOperationFailure,
) -> (AppStateV, TickChangesV) {
    let rules = state.repo_view.path_rules;
    let back = AppStateV {
        mode: ModeV::BranchSelect(state.mode.context()->0),
        ..state
    };
    match failure {
        BranchOperationFailure::Failed(message) => (
            back.told(ToastKind::Error, message@),
            changes,
        ),
        BranchOperationFailure::LocalBranchAvailable { branch_name, tracking_created, message } => {
            let selection = BranchIdV::Local(branch_name@);
            let promoted = state.branch_view.promoted(branch_name@);
            (
                back.with_branches(
                    BranchViewV {
                        list: SearchableListV {
                            input: TextInputV { text: Seq::empty(), cursor: 0 },
                            ..promoted.list
                        },
                        pending_selection: Some(selection),
                        loading: true,
                        ..promoted
                    }.without_remotes(),
                ).told(
                    ToastKind::Error,
                    tracking_message(branch_name@, tracking_created, message@),
                ),
                TickChangesV {
                    pinned_branch_selection: Some(selection),
                    branches_changed: true,
                    refresh_branch: repo_at(state.repo_view.entries, repo_path, rules),
                    ..changes
                },
            )
        },
    }
}

/// What the branch list does with an event: nothing where the event is not its own. An
/// answer to an earlier visit changes nothing.
pub open spec fn after_event(
    event: AppEvent,
    state: AppStateV,
    changes: TickChangesV,
    now: u64,
) -> Option<(AppStateV, TickChangesV)> {
    let rules = state.repo_view.path_rules;
    let view = state.branch_view;
    match event {
        AppEvent::FilterCompleted { target, generation, matches, selected } => if target
            == FilterTarget::Branches {
            Some(
                (
                    if generation == view.filter_generation {
                        state.with_branches(
                            view.with_filter(matches.deep_view(), selected.deep_view()),
                        )
                    } else {
                        state
                    },
                    changes,
                ),
            )
        } else {
            None
        },
        AppEvent::BranchesLoaded {
            repo_path,
            generation,
            branches,
            worktrees,
            skipped_unsupported_refs,
        } => Some(
            if shows_repo(state.mode, repo_path@, rules) && view.generation == generation {
                after_branches_loaded(
                    state,
                    changes,
                    repo_path@,
                    generation,
                    branches.deep_view(),
                    worktrees.deep_view(),
                    skipped_unsupported_refs,
                    now,
                )
            } else {
                (state, changes)
            },
        ),
        AppEvent::RemoteBranchesLoaded {
            repo_path,
            generation,
            remote,
            branches,
            skipped_unsupported_refs,
        } => Some(
            if of_this_visit(state, repo_path@, generation) {
                let (merged, changed) = after_remote_loaded(
                    state,
                    changes,
                    remote@,
                    branches.deep_view(),
                );
                (merged.refs_warned(generation, skipped_unsupported_refs), changed)
            } else {
                (state, changes)
            },
        ),
        AppEvent::RemoteBranchLoadFailed { repo_path, generation, message } => Some(
            (
                if of_this_visit(state, repo_path@, generation) {
                    state.told(ToastKind::Warning, message@)
                } else {
                    state
                },
                changes,
            ),
        ),
        AppEvent::GitFetchCompleted {
            remote,
            branches,
            repo_path,
            generation,
            error,
            is_final,
            skipped_unsupported_refs,
        } => Some(
            if of_this_visit(state, repo_path@, generation) {
                after_fetch(
                    state,
                    changes,
                    remote.deep_view(),
                    branches.deep_view(),
                    repo_path@,
                    generation,
                    error.deep_view(),
                    is_final,
                    skipped_unsupported_refs,
                )
            } else {
                (state, changes)
            },
        ),
        AppEvent::BranchLoadFailed { repo_path, generation, message } => Some(
            (
                if shows_repo(state.mode, repo_path@, rules) && view.generation == generation {
                    AppStateV {
                        mode: ModeV::RepoSelect,
                        branch_view: BranchViewV { loading: false, ..view },
                        ..state
                    }.told(ToastKind::Error, message@)
                } else {
                    state
                },
                changes,
            ),
        ),
        AppEvent::OpenWorktreesLoaded { repo_path, generation, worktrees } => Some(
            if of_this_visit(state, repo_path@, generation) {
                (
                    state.with_branches(
                        BranchViewV {
                            open_worktrees: worktrees.deep_view(),
                            open_worktree_load_state: OpenWorktreeLoadStateV::Loaded {
                                repo_path: repo_path@,
                                generation,
                            },
                            ..view
                        }.marked_open(),
                    ).open_state_refreshed(),
                    TickChangesV { resume_pending_deletes: true, ..changes },
                )
            } else {
                (state, changes)
            },
        ),
        AppEvent::OpenWorktreesFailed { repo_path, generation, message } => Some(
            (
                if of_this_visit(state, repo_path@, generation) {
                    state.with_branches(
                        BranchViewV {
                            open_worktrees: Seq::empty(),
                            open_worktree_load_state: OpenWorktreeLoadStateV::Failed {
                                repo_path: repo_path@,
                                generation,
                            },
                            ..view
                        },
                    ).told(ToastKind::Error, message@)
                } else {
                    state
                },
                changes,
            ),
        ),
        AppEvent::BranchOperationFailed { repo_path, failure } => Some(
            if state.mode is Loading && belongs_to(state.mode, repo_path@, rules) {
                after_operation_failed(state, changes, repo_path@, failure)
            } else {
                (state, changes)
            },
        ),
        _ => None,
    }
}

fn id_list(entries: &Vec<BranchEntry>) -> (ids: Vec<BranchId>)
    ensures
        ids.deep_view() == ids_of(entries.deep_view()),
{
    let mut ids: Vec<BranchId> = Vec::new();
    let mut i: usize = 0;
    while i < entries.len()
        invariant
            i <= entries.len(),
            ids@.len() == i,
            forall|k: int|
                0 <= k < i ==> (#[trigger] ids@[k]).deep_view() == entries@[k].deep_view().id(),
        decreases entries.len() - i,
    {
        ids.push(entries[i].id());
        i = i + 1;
    }
    assert(ids.deep_view() =~= ids_of(entries.deep_view()));
    ids
}

pub fn name_list(entries: &Vec<BranchEntry>) -> (names: Vec<String>)
    ensures
        names.deep_view() == names_of(entries.deep_view()),
{
    let mut names: Vec<String> = Vec::new();
    let mut i: usize = 0;
    while i < entries.len()
        invariant
            i <= entries.len(),
            names@.len() == i,
            forall|k: int| 0 <= k < i ==> (#[trigger] names@[k])@ == entries@[k].name@,
        decreases entries.len() - i,
    {
        names.push(entries[i].name.clone());
        i = i + 1;
    }
    assert(names.deep_view() =~= names_of(entries.deep_view()));
    names
}

#[verifier::loop_isolation(false)]
fn matched_ids(matches: &Vec<(FilterKey, i64)>) -> (scored: Vec<(BranchId, i64)>)
    ensures
        scored.deep_view() == branch_matches(matches.deep_view()),
{
    let ghost all = matches.deep_view();
    let mut scored: Vec<(BranchId, i64)> = Vec::new();
    let mut i: usize = 0;
    assert(scored.deep_view() =~= branch_matches(all.take(0)));
    while i < matches.len()
        invariant
            i <= matches.len(),
            scored.deep_view() == branch_matches(all.take(i as int)),
        decreases matches.len() - i,
    {
        let ghost before = scored.deep_view();
        proof {
            assert(all.take(i + 1).drop_last() =~= all.take(i as int));
            assert(all.take(i + 1).last() == matches@[i as int].deep_view());
        }
        match &matches[i].0 {
            FilterKey::Branch(id) => {
                let pair = (id.clone(), matches[i].1);
                let ghost added = pair.deep_view();
                scored.push(pair);
                assert(scored.deep_view() =~= before.push(added));
            },
            _ => {},
        }
        i = i + 1;
    }
    assert(all.take(all.len() as int) =~= all);
    scored
}

fn selected_id(view: &BranchViewState) -> (id: Option<BranchId>)
    ensures
        id.deep_view() == selected_key(
            view.deep_view().list,
            ids_of(view.deep_view().entries),
        ),
{
    match selected_item(&view.list, view.entries.len()) {
        Some(index) => Some(view.entries[index].id()),
        None => None,
    }
}

fn pin_selection(view: &BranchViewState, changes: &mut TickChanges)
    ensures
        final(changes).deep_view() == old(changes).deep_view().pinning(view.deep_view()),
{
    if changes.pinned_branch_selection.is_none() {
        changes.pinned_branch_selection = selected_id(view);
    }
}

fn merge_remote_branches(view: &mut BranchViewState, remote: String, branches: Vec<BranchEntry>)
    ensures
        final(view).deep_view() == old(view).deep_view().with_remote_branches(
            remote@,
            branches.deep_view(),
        ),
{
    let rules = view.path_rules;
    let ghost start = view.deep_view();
    let selected = selected_id(view);
    let before = id_list(&view.entries);
    let shown = keys_shown(&before, &view.list.filtered);
    view.merge_remote_snapshot(remote, branches);
    let ids = id_list(&view.entries);
    view.list.filtered = look_up_rows(&ids, &shown, rules);
    let position = find_position(&ids, &view.list.filtered, selected.as_ref(), rules);
    view.list.selected = match position {
        Some(at) => Some(at),
        None => if view.list.filtered.len() > 0 {
            Some(0)
        } else {
            None
        },
    };
    assert(view.deep_view() =~= start.with_remote_branches(remote@, branches.deep_view()));
}

fn load_remote(
    state: &mut AppState,
    changes: &mut TickChanges,
    remote: String,
    branches: Vec<BranchEntry>,
)
    ensures
        (final(state).deep_view(), final(changes).deep_view()) == after_remote_loaded(
            old(state).deep_view(),
            old(changes).deep_view(),
            remote@,
            branches.deep_view(),
        ),
{
    pin_selection(&state.branch_view, changes);
    merge_remote_branches(&mut state.branch_view, remote, branches);
    state.branch_view.apply_open_indicators();
    changes.branches_changed = true;
}

fn warn_unsupported_refs(state: &mut AppState, generation: u64, skipped: bool)
    ensures
        final(state).deep_view() == old(state).deep_view().refs_warned(generation, skipped),
{
    if state.branch_view.should_warn_unsupported_refs(generation, skipped) {
        state.push_toast(ToastKind::Warning, UNSUPPORTED_REF_WARNING);
    }
}

fn load_branches(
    state: &mut AppState,
    changes: &mut TickChanges,
    repo_path: PathBuf,
    generation: u64,
    branches: Vec<BranchEntry>,
    worktrees: Vec<Worktree>,
    skipped: bool,
    now: u64,
)
    requires
        old(state).branch_view.generation == generation,
    ensures
        (final(state).deep_view(), final(changes).deep_view()) == after_branches_loaded(
            old(state).deep_view(),
            old(changes).deep_view(),
            repo_path@,
            generation,
            branches.deep_view(),
            worktrees.deep_view(),
            skipped,
            now,
        ),
{
    let ghost start = state.deep_view();
    let names = name_list(&branches);
    let known = is_open_state_known(&state.branch_view, &repo_path);
    state.repo_view.set_worktrees(&repo_path, worktrees);
    state.branch_view.entries = branches;
    state.branch_view.clear_remote_snapshots();
    match &state.branch_view.pending_selection {
        Some(selection) => {
            changes.pinned_branch_selection = Some(selection.clone());
        },
        None => {},
    }
    state.branch_view.pending_selection = None;
    state.branch_view.loading = false;
    state.branch_view.fetching_remote_repo = Some(repo_path.clone());
    let ghost loaded = state.deep_view();
    assert(loaded.branch_view == (BranchViewV {
        entries: branches.deep_view(),
        remote_branches: Seq::empty(),
        pending_selection: None,
        loading: false,
        fetching_remote_repo: Some(repo_path@),
        ..start.branch_view
    }));
    state.branch_view.apply_open_indicators();
    if reconcile_pending(state, &repo_path, now) {
        changes.save_pending = true;
    }
    changes.start_remote_loading = Some(
        RemoteLoading { repo_path, generation, local_names: names },
    );
    changes.branches_changed = true;
    changes.resume_pending_deletes = known;
    warn_unsupported_refs(state, generation, skipped);
}

#[verifier::rlimit(60)]
fn fetch_step(
    state: &mut AppState,
    changes: &mut TickChanges,
    remote: Option<String>,
    branches: Vec<BranchEntry>,
    repo_path: PathBuf,
    generation: u64,
    error: Option<String>,
    is_final: bool,
    skipped: bool,
)
    ensures
        (final(state).deep_view(), final(changes).deep_view()) == after_fetch(
            old(state).deep_view(),
            old(changes).deep_view(),
            remote.deep_view(),
            branches.deep_view(),
            repo_path@,
            generation,
            error.deep_view(),
            is_final,
            skipped,
        ),
{
    let rules = state.repo_view.path_rules;
    match remote {
        Some(remote) => {
            load_remote(state, changes, remote.clone(), branches);
            match &error {
                Some(error) => {
                    if state.branch_view.record_fetch_warning(remote.clone()) {
                        let head = concat3("could not fetch remote ", remote.as_str(), ": ");
                        let message = concat(head.as_str(), error.as_str());
                        state.push_toast(ToastKind::Warning, message.as_str());
                    }
                },
                None => {},
            }
        },
        None => match &error {
            Some(error) => state.push_toast(ToastKind::Warning, error.as_str()),
            None => {},
        },
    }
    let shown = match &state.branch_view.fetching_remote_repo {
        Some(fetching) => equal_paths(fetching, &repo_path, rules),
        None => false,
    };
    if is_final && shown {
        state.branch_view.fetching_remote_repo = None;
    }
    warn_unsupported_refs(state, generation, skipped);
}

fn operation_failed(
    state: &mut AppState,
    changes: &mut TickChanges,
    repo_path: PathBuf,
    failure: BranchOperationFailure,
)
    requires
        old(state).deep_view().mode.context() is Some,
    ensures
        (final(state).deep_view(), final(changes).deep_view()) == after_operation_failed(
            old(state).deep_view(),
            old(changes).deep_view(),
            repo_path@,
            failure,
        ),
{
    let rules = state.repo_view.path_rules;
    let ghost start = state.deep_view();
    let context = match state.branch_context() {
        Some(context) => context.clone(),
        None => return,
    };
    state.mode = Mode::BranchSelect(context);
    match failure {
        BranchOperationFailure::Failed(message) => {
            state.push_toast(ToastKind::Error, message.as_str());
        },
        BranchOperationFailure::LocalBranchAvailable { branch_name, tracking_created, message } => {
            let selection = BranchId::Local(branch_name.clone());
            state.branch_view.promote_remote_to_local(branch_name.as_str());
            state.branch_view.list.input.clear();
            state.branch_view.pending_selection = Some(selection.clone());
            changes.pinned_branch_selection = Some(selection);
            changes.branches_changed = true;
            state.branch_view.loading = true;
            state.branch_view.reset_remotes();
            changes.refresh_branch = copy_repo_at(&state.repo_view.entries, &repo_path, rules);
            let text = if tracking_created {
                let head = concat3(
                    "Tracking branch ",
                    branch_name.as_str(),
                    " was created, but its checkout could not be opened: ",
                );
                concat(head.as_str(), message.as_str())
            } else {
                let head = concat3(
                    "Local branch ",
                    branch_name.as_str(),
                    " now exists, but its checkout could not be opened: ",
                );
                concat(head.as_str(), message.as_str())
            };
            state.push_toast(ToastKind::Error, text.as_str());
        },
    }
}

/// Takes an event in, or hands it back where it is not for the branch list.
pub fn handle_event(
    event: AppEvent,
    state: &mut AppState,
    changes: &mut TickChanges,
    now: u64,
) -> (passed: Option<AppEvent>)
    ensures
        match after_event(event, old(state).deep_view(), old(changes).deep_view(), now) {
            Some((state_after, changes_after)) => passed is None && final(state).deep_view()
                == state_after && final(changes).deep_view() == changes_after,
            None => passed == Some(event) && *final(state) == *old(state) && *final(changes)
                == *old(changes),
        },
{
    match event {
        AppEvent::FilterCompleted { target, generation, matches, selected } => {
            if target != FilterTarget::Branches {
                return Some(AppEvent::FilterCompleted { target, generation, matches, selected });
            }
            if generation == state.branch_view.filter_generation {
                let ids = id_list(&state.branch_view.entries);
                let scored = matched_ids(&matches);
                let requested: Option<&BranchId> = match &selected {
                    Some(FilterKey::Branch(id)) => Some(id),
                    _ => None,
                };
                apply_matches(
                    &mut state.branch_view.list,
                    &ids,
                    &scored,
                    requested,
                    state.branch_view.path_rules,
                );
            }
            None
        },
        AppEvent::BranchesLoaded {
            repo_path,
            generation,
            branches,
            worktrees,
            skipped_unsupported_refs,
        } => {
            if matches_repo(state, &repo_path) && state.branch_view.generation == generation {
                load_branches(
                    state,
                    changes,
                    repo_path,
                    generation,
                    branches,
                    worktrees,
                    skipped_unsupported_refs,
                    now,
                );
            }
            None
        },
        AppEvent::RemoteBranchesLoaded {
            repo_path,
            generation,
            remote,
            branches,
            skipped_unsupported_refs,
        } => {
            if branch_context_generation_matches(state, &repo_path, generation) {
                load_remote(state, changes, remote, branches);
                warn_unsupported_refs(state, generation, skipped_unsupported_refs);
            }
            None
        },
        AppEvent::RemoteBranchLoadFailed { repo_path, generation, message } => {
            if branch_context_generation_matches(state, &repo_path, generation) {
                state.push_toast(ToastKind::Warning, message.as_str());
            }
            None
        },
        AppEvent::GitFetchCompleted {
            remote,
            branches,
            repo_path,
            generation,
            error,
            is_final,
            skipped_unsupported_refs,
        } => {
            if branch_context_generation_matches(state, &repo_path, generation) {
                fetch_step(
                    state,
                    changes,
                    remote,
                    branches,
                    repo_path,
                    generation,
                    error,
                    is_final,
                    skipped_unsupported_refs,
                );
            }
            None
        },
        AppEvent::BranchLoadFailed { repo_path, generation, message } => {
            if matches_repo(state, &repo_path) && state.branch_view.generation == generation {
                state.branch_view.loading = false;
                state.mode = Mode::RepoSelect;
                state.push_toast(ToastKind::Error, message.as_str());
            }
            None
        },
        AppEvent::OpenWorktreesLoaded { repo_path, generation, worktrees } => {
            if branch_context_generation_matches(state, &repo_path, generation) {
                state.branch_view.open_worktrees = worktrees;
                state.branch_view.open_worktree_load_state = OpenWorktreeLoadState::Loaded {
                    repo_path,
                    generation,
                };
                state.branch_view.apply_open_indicators();
                refresh_open_state(state);
                changes.resume_pending_deletes = true;
            }
            None
        },
        AppEvent::OpenWorktreesFailed { repo_path, generation, message } => {
            if branch_context_generation_matches(state, &repo_path, generation) {
                state.branch_view.open_worktrees = Vec::new();
                assert(state.branch_view.open_worktrees.deep_view() =~= Seq::<
                    WorktreeInfoV,
                >::empty());
                state.branch_view.open_worktree_load_state = OpenWorktreeLoadState::Failed {
                    repo_path,
                    generation,
                };
                state.push_toast(ToastKind::Error, message.as_str());
            }
            None
        },
        AppEvent::BranchOperationFailed { repo_path, failure } => {
            let opening = match &state.mode {
                Mode::Loading { .. } => true,
                _ => false,
            };
            if opening && branch_context_matches(state, &repo_path) {
                operation_failed(state, changes, repo_path, failure);
            }
            None
        },
        other => Some(other),
    }
}

impl BranchViewV {
    /// What is asked of the filter.
    pub open spec fn filter_request(self, selected: Option<BranchIdV>) -> FilterRequestV {
        FilterRequestV {
            target: FilterTarget::Branches,
            generation: self.filter_generation,
            query: self.list.input.text,
            items: self.entries.map_values(
                |entry: BranchEntryV|
                    FilterItemV {
                        key: FilterKeyV::Branch(entry.id()),
                        text: entry.id().display(),
                    },
            ),
            selected: match selected {
                Some(id) => Some(FilterKeyV::Branch(id)),
                None => None,
            },
        }
    }

    /// The list after its query or its rows changed, and what is asked of the filter: an
    /// empty query needs none.
    pub open spec fn refiltered(self, selected: Option<BranchIdV>) -> (
        BranchViewV,
        Option<FilterRequestV>,
    ) {
        let rules = self.path_rules;
        let next = BranchViewV {
            filter_generation: next_generation(self.filter_generation),
            ..self
        };
        if self.list.input.text.len() == 0 {
            (
                BranchViewV {
                    list: SearchableListV {
                        filtered: all_rows(self.entries.len()),
                        selected: or_first(
                            match selected {
                                Some(id) => match first_place::<BranchId>(
                                    ids_of(self.entries),
                                    id,
                                    rules,
                                ) {
                                    Some(place) => Some(place as usize),
                                    None => None,
                                },
                                None => None,
                            },
                            self.entries.len(),
                        ),
                        scroll_offset: 0,
                        ..self.list
                    },
                    ..next
                },
                None,
            )
        } else {
            (next, Some(next.filter_request(selected)))
        }
    }
}

#[verifier::loop_isolation(false)]
fn filter_items(view: &BranchViewState) -> (items: Vec<FilterItem>)
    ensures
        items.deep_view() == view.deep_view().filter_request(None).items,
{
    let ghost wanted = view.deep_view().filter_request(None).items;
    let mut items: Vec<FilterItem> = Vec::new();
    let mut i: usize = 0;
    while i < view.entries.len()
        invariant
            i <= view.entries.len(),
            items@.len() == i,
            forall|k: int| 0 <= k < i ==> (#[trigger] items@[k]).deep_view() == wanted[k],
        decreases view.entries.len() - i,
    {
        let item = FilterItem {
            key: FilterKey::Branch(view.entries[i].id()),
            text: view.entries[i].display_name(),
        };
        assert(view.entries@[i as int].deep_view() == view.deep_view().entries[i as int]);
        assert(item.deep_view() == wanted[i as int]);
        items.push(item);
        i = i + 1;
    }
    assert(items.deep_view() =~= wanted);
    items
}

/// Takes in that the query or the rows changed.
pub fn queue_filter(state: &mut AppState, selected: Option<BranchId>) -> (request: Option<
    FilterRequest,
>)
    ensures
        ({
            let (view, asked) = old(state).deep_view().branch_view.refiltered(
                selected.deep_view(),
            );
            &&& final(state).deep_view() == old(state).deep_view().with_branches(view)
            &&& request.deep_view() == asked
        }),
{
    let ghost start = state.deep_view();
    state.branch_view.filter_generation = advance(state.branch_view.filter_generation);
    if state.branch_view.list.input.text.as_str().is_empty() {
        let count: usize = state.branch_view.entries.len();
        state.branch_view.list.filtered = every_row(count);
        let ids = id_list(&state.branch_view.entries);
        assert(ids.deep_view().len() == ids@.len());
        let place = match &selected {
            Some(id) => find_first(&ids, id, state.branch_view.path_rules),
            None => None,
        };
        state.branch_view.list.selected = match place {
            Some(at) => Some(at),
            None => if count > 0 {
                Some(0)
            } else {
                None
            },
        };
        state.branch_view.list.scroll_offset = 0;
        assert(state.branch_view.deep_view() =~= start.branch_view.refiltered(
            selected.deep_view(),
        ).0);
        return None;
    }
    let key = match selected {
        Some(id) => Some(FilterKey::Branch(id)),
        None => None,
    };
    Some(
        FilterRequest {
            target: FilterTarget::Branches,
            generation: state.branch_view.filter_generation,
            query: state.branch_view.list.input.text.clone(),
            items: filter_items(&state.branch_view),
            selected: key,
        },
    )
}

/// Asking for the branches of a repository, and inside of herdr for its open checkouts.
pub open spec fn loading_effects(
    repo: RepoV,
    cwd: Option<Seq<u8>>,
    generation: u64,
    inside_herdr: bool,
) -> Seq<EffectV> {
    let branches = EffectV::LoadBranches { repo, cwd, generation };
    if inside_herdr {
        seq![branches, EffectV::LoadOpenWorktrees { repo_path: repo.path, generation }]
    } else {
        seq![branches]
    }
}

/// Going to the branches of the selected repository. A plain folder has none.
pub open spec fn after_enter(state: AppStateV, inside_herdr: bool) -> (AppStateV, Seq<EffectV>) {
    match state.repo_view.selected() {
        Some(entry) => if entry.repo.is_git {
            let generation = (state.branch_view.generation + 1) as u64;
            (
                AppStateV {
                    mode: ModeV::BranchSelect(
                        BranchContextV {
                            repo_path: entry.repo.path,
                            repo_name: entry.repo.name,
                        },
                    ),
                    branch_view: BranchViewV {
                        entries: Seq::empty(),
                        list: SearchableListV::fresh(0),
                        open_worktrees: Seq::empty(),
                        open_worktree_load_state: OpenWorktreeLoadStateV::Unknown,
                        loading: true,
                        filter_generation: next_generation(state.branch_view.filter_generation),
                        generation,
                        ..state.branch_view.without_remotes()
                    },
                    ..state
                },
                loading_effects(
                    entry.repo,
                    state.repo_view.current_cwd,
                    generation,
                    inside_herdr,
                ),
            )
        } else {
            (
                state.told(
                    ToastKind::Error,
                    "Branches are only available for git repositories"@,
                ),
                Seq::empty(),
            )
        },
        None => (state, Seq::empty()),
    }
}

/// Whether going to the branches of the selected repository can be counted.
pub open spec fn visit_countable(state: AppStateV) -> bool {
    match state.repo_view.selected() {
        Some(entry) => entry.repo.is_git ==> state.branch_view.generation < u64::MAX,
        None => true,
    }
}

fn load_effects(repo: Repo, cwd: Option<PathBuf>, generation: u64, inside_herdr: bool) -> (effects:
    Vec<Effect>)
    ensures
        effects.deep_view() == loading_effects(
            repo.deep_view(),
            cwd.deep_view(),
            generation,
            inside_herdr,
        ),
{
    let ghost wanted = loading_effects(repo.deep_view(), cwd.deep_view(), generation, inside_herdr);
    let repo_path = repo.path.clone();
    let mut effects: Vec<Effect> = Vec::new();
    effects.push(Effect::LoadBranches { repo, cwd, generation });
    if inside_herdr {
        effects.push(Effect::LoadOpenWorktrees { repo_path, generation });
    }
    assert(effects.deep_view() =~= wanted);
    effects
}

/// Goes to the branches of the selected repository.
pub fn enter(state: &mut AppState, inside_herdr: bool) -> (effects: Vec<Effect>)
    requires
        visit_countable(old(state).deep_view()),
    ensures
        (final(state).deep_view(), effects.deep_view()) == after_enter(
            old(state).deep_view(),
            inside_herdr,
        ),
{
    let ghost start = state.deep_view();
    let repo = match state.repo_view.selected() {
        Some(entry) => entry.repo.clone(),
        None => {
            let none: Vec<Effect> = Vec::new();
            assert(none.deep_view() =~= Seq::<EffectV>::empty());
            return none;
        },
    };
    if !repo.is_git {
        state.push_toast(
            ToastKind::Error,
            "Branches are only available for git repositories",
        );
        let none: Vec<Effect> = Vec::new();
        assert(none.deep_view() =~= Seq::<EffectV>::empty());
        return none;
    }
    state.mode = Mode::BranchSelect(
        BranchContext { repo_path: repo.path.clone(), repo_name: repo.name.clone() },
    );
    state.branch_view.entries = Vec::new();
    state.branch_view.list = SearchableList::new(0);
    state.branch_view.open_worktrees = Vec::new();
    state.branch_view.open_worktree_load_state = OpenWorktreeLoadState::Unknown;
    state.branch_view.loading = true;
    state.branch_view.reset_remotes();
    state.branch_view.filter_generation = advance(state.branch_view.filter_generation);
    state.branch_view.generation = state.branch_view.generation + 1;
    proof {
        let (wanted, _) = after_enter(start, inside_herdr);
        assert(state.branch_view.deep_view() =~= wanted.branch_view);
    }
    load_effects(
        repo,
        copy_optional_path(&state.repo_view.current_cwd),
        state.branch_view.generation,
        inside_herdr,
    )
}

/// Loads the branches of a repository anew.
pub fn refresh(state: &mut AppState, repo: Repo, inside_herdr: bool) -> (effects: Vec<Effect>)
    requires
        old(state).branch_view.generation < u64::MAX,
    ensures
        final(state).deep_view() == old(state).deep_view().with_branches(
            BranchViewV {
                generation: (old(state).branch_view.generation + 1) as u64,
                ..old(state).deep_view().branch_view
            },
        ),
        effects.deep_view() == loading_effects(
            repo.deep_view(),
            old(state).deep_view().repo_view.current_cwd,
            final(state).branch_view.generation,
            inside_herdr,
        ),
{
    state.branch_view.generation = state.branch_view.generation + 1;
    load_effects(
        repo,
        copy_optional_path(&state.repo_view.current_cwd),
        state.branch_view.generation,
        inside_herdr,
    )
}

/// What is shown while a branch is opened.
pub open spec fn opening_message(branch: BranchEntryV) -> Seq<char> {
    if branch.remote is Some {
        "Checking out remote branch "@ + branch.name + "…"@
    } else if branch.worktree_path is Some {
        "Opening "@ + branch.name + "…"@
    } else {
        "Creating worktree for "@ + branch.name + "…"@
    }
}

/// Opening a branch: what is shown, and what is asked for.
pub open spec fn after_open(state: AppStateV, branch: BranchEntryV, inside_herdr: bool) -> (
    AppStateV,
    Option<EffectV>,
) {
    match state.mode.context() {
        Some(context) => if inside_herdr {
            (
                AppStateV {
                    mode: ModeV::Loading {
                        message: opening_message(branch),
                        branch: Some(context),
                    },
                    ..state
                },
                Some(
                    match branch.remote {
                        Some(remote) => EffectV::OpenRemoteBranch {
                            repo_path: context.repo_path,
                            branch_name: branch.name,
                            remote,
                        },
                        None => EffectV::OpenBranch {
                            repo_path: context.repo_path,
                            branch_name: branch.name,
                            has_worktree: branch.worktree_path is Some,
                        },
                    },
                ),
            )
        } else {
            (state.told(ToastKind::Error, "not running inside herdr"@), None)
        },
        None => (state, None),
    }
}

/// Opens a branch.
pub fn open(state: &mut AppState, branch: &BranchEntry, inside_herdr: bool) -> (effect: Option<
    Effect,
>)
    ensures
        (final(state).deep_view(), effect.deep_view()) == after_open(
            old(state).deep_view(),
            branch.deep_view(),
            inside_herdr,
        ),
{
    let context = match state.branch_context() {
        Some(context) => context.clone(),
        None => return None,
    };
    if !inside_herdr {
        state.push_toast(ToastKind::Error, "not running inside herdr");
        return None;
    }
    let has_worktree = branch.worktree_path.is_some();
    let verb = if branch.remote.is_some() {
        "Checking out remote branch "
    } else if has_worktree {
        "Opening "
    } else {
        "Creating worktree for "
    };
    let repo_path = context.repo_path.clone();
    state.mode = Mode::Loading {
        message: concat3(verb, branch.name.as_str(), "…"),
        branch: Some(context),
    };
    match &branch.remote {
        Some(remote) => Some(
            Effect::OpenRemoteBranch {
                repo_path,
                branch_name: branch.name.clone(),
                remote: remote.clone(),
            },
        ),
        None => Some(
            Effect::OpenBranch { repo_path, branch_name: branch.name.clone(), has_worktree },
        ),
    }
}

/// Opening the branch of the selected row: what is shown, and what is asked for.
pub open spec fn after_open_selected(state: AppStateV, inside_herdr: bool) -> (
    AppStateV,
    Option<EffectV>,
) {
    match state.branch_view.selected() {
        Some(branch) => after_open(state, branch, inside_herdr),
        None => (state, None),
    }
}

/// Opens the branch of the selected row.
pub fn open_selected(state: &mut AppState, inside_herdr: bool) -> (effect: Option<Effect>)
    ensures
        (final(state).deep_view(), effect.deep_view()) == after_open_selected(
            old(state).deep_view(),
            inside_herdr,
        ),
{
    let branch = match state.branch_view.selected() {
        Some(branch) => branch.clone(),
        None => return None,
    };
    open(state, &branch, inside_herdr)
}

pub fn move_selection(state: &mut AppState, delta: i32)
    ensures
        final(state).deep_view() == old(state).deep_view().with_branches(
            BranchViewV {
                list: old(state).deep_view().branch_view.list.moved(delta as int),
                ..old(state).deep_view().branch_view
            },
        ),
{
    state.branch_view.list.move_selection(delta);
}

/// Changes the query.
pub fn edit(state: &mut AppState, change: Edit) -> (request: Option<FilterRequest>)
    ensures
        ({
            let start = old(state).deep_view().branch_view;
            let (view, asked) = BranchViewV {
                list: SearchableListV { input: start.list.input.edited(change), ..start.list },
                ..start
            }.refiltered(None);
            &&& final(state).deep_view() == old(state).deep_view().with_branches(view)
            &&& request.deep_view() == asked
        }),
{
    state.branch_view.list.input.edit(change);
    queue_filter(state, None)
}

/// Goes back to the list of repositories.
pub fn leave(state: &mut AppState)
    ensures
        final(state).deep_view() == (AppStateV {
            mode: ModeV::RepoSelect,
            branch_view: old(state).deep_view().branch_view.without_remotes(),
            ..old(state).deep_view()
        }),
{
    state.mode = Mode::RepoSelect;
    state.branch_view.reset_remotes();
}

/// The remotes stand in the order of their names, each once.
pub open spec fn remotes_in_order(remotes: Seq<RemoteBranchesV>) -> bool {
    forall|i: int, j: int|
        0 <= i < j < remotes.len() ==> rank_text(
            (#[trigger] remotes[i]).remote,
            (#[trigger] remotes[j]).remote,
        ) == Rank::Less
}

pub proof fn lemma_place_of_remote(remotes: Seq<RemoteBranchesV>, remote: Seq<char>)
    ensures
        0 <= place_of_remote(remotes, remote) <= remotes.len(),
        ({
            let place = place_of_remote(remotes, remote);
            &&& forall|i: int|
                0 <= i < place ==> rank_text(remote, (#[trigger] remotes[i]).remote)
                    == Rank::Greater
            &&& place < remotes.len() && remotes[place].remote != remote ==> rank_text(
                remote,
                remotes[place].remote,
            ) == Rank::Less
        }),
    decreases remotes.len(),
{
    if remotes.len() > 0 {
        let rest = remotes.drop_first();
        lemma_place_of_remote(rest, remote);
        lemma_rank_bytes_equal(encode_utf8(remote), encode_utf8(remotes[0].remote));
        if rank_text(remote, remotes[0].remote) == Rank::Equal {
            encode_utf8_decode_utf8(remote);
            encode_utf8_decode_utf8(remotes[0].remote);
        }
        let place = place_of_remote(remotes, remote);
        if place > 0 {
            assert forall|i: int| 0 <= i < place implies rank_text(
                remote,
                (#[trigger] remotes[i]).remote,
            ) == Rank::Greater by {
                if i > 0 {
                    assert(remotes[i] == rest[i - 1]);
                }
            }
            assert(place < remotes.len() ==> remotes[place] == rest[place - 1]);
        }
    }
}

/// Taking in what a remote has keeps the remotes in the order of their names, each once.
pub proof fn lemma_snapshots_stay_in_order(
    remotes: Seq<RemoteBranchesV>,
    remote: Seq<char>,
    branches: Seq<BranchEntryV>,
)
    requires
        remotes_in_order(remotes),
    ensures
        remotes_in_order(with_remote(remotes, remote, branches)),
{
    lemma_place_of_remote(remotes, remote);
    lemma_rank_text_consistent();
    let rank = |a: Seq<char>, b: Seq<char>| rank_text(a, b);
    let place = place_of_remote(remotes, remote);
    let after = with_remote(remotes, remote, branches);
    if place < remotes.len() && remotes[place].remote == remote {
        assert forall|i: int, j: int| 0 <= i < j < after.len() implies rank_text(
            (#[trigger] after[i]).remote,
            (#[trigger] after[j]).remote,
        ) == Rank::Less by {
            assert(after[i].remote == remotes[i].remote);
            assert(after[j].remote == remotes[j].remote);
        }
    } else {
        assert forall|i: int, j: int| 0 <= i < j < after.len() implies rank_text(
            (#[trigger] after[i]).remote,
            (#[trigger] after[j]).remote,
        ) == Rank::Less by {
            if i == place {
                let next = remotes[place].remote;
                assert(after[j] == remotes[j - 1]);
                assert(rank(remote, next) == Rank::Less);
                if j - 1 > place {
                    assert(rank(next, remotes[j - 1].remote) == Rank::Less);
                }
            } else if j == place {
                assert(after[i] == remotes[i]);
                assert(rank(remote, remotes[i].remote) == Rank::Greater);
                assert(rank(remotes[i].remote, remote) == Rank::Less);
            } else {
                let a = if i < place {
                    i
                } else {
                    i - 1
                };
                let b = if j < place {
                    j
                } else {
                    j - 1
                };
                assert(after[i] == remotes[a] && after[j] == remotes[b]);
            }
        }
    }
}

pub proof fn lemma_local_rows(entries: Seq<BranchEntryV>)
    ensures
        forall|i: int|
            0 <= i < local_rows(entries).len() ==> (#[trigger] local_rows(entries)[i]).remote
                is None,
        forall|i: int|
            0 <= i < entries.len() && (#[trigger] entries[i]).remote is None ==> local_rows(
                entries,
            ).contains(entries[i]),
    decreases entries.len(),
{
    if entries.len() > 0 {
        let before = local_rows(entries.drop_last());
        let all = local_rows(entries);
        lemma_local_rows(entries.drop_last());
        assert forall|i: int|
            0 <= i < entries.len() && (#[trigger] entries[i]).remote is None implies all.contains(
            entries[i],
        ) by {
            if i < entries.len() - 1 {
                assert(entries[i] == entries.drop_last()[i]);
                let at = choose|k: int| 0 <= k < before.len() && before[k] == entries[i];
                assert(all[at] == entries[i]);
            } else {
                assert(all[before.len() as int] == entries[i]);
            }
        }
    }
}

proof fn lemma_unshadowed(branches: Seq<BranchEntryV>, rows: Seq<BranchEntryV>)
    ensures
        forall|i: int|
            0 <= i < unshadowed(branches, rows).len() ==> !has_local(
                rows,
                (#[trigger] unshadowed(branches, rows)[i]).name,
            ),
    decreases branches.len(),
{
    if branches.len() > 0 {
        lemma_unshadowed(branches.drop_last(), rows);
    }
}

proof fn lemma_remote_rows(remotes: Seq<RemoteBranchesV>, rows: Seq<BranchEntryV>)
    ensures
        forall|i: int|
            0 <= i < remote_rows(remotes, rows).len() ==> !has_local(
                rows,
                (#[trigger] remote_rows(remotes, rows)[i]).name,
            ),
    decreases remotes.len(),
{
    if remotes.len() > 0 {
        let before = remote_rows(remotes.drop_last(), rows);
        let last = unshadowed(remotes.last().branches, rows);
        lemma_remote_rows(remotes.drop_last(), rows);
        lemma_unshadowed(remotes.last().branches, rows);
        assert forall|i: int| 0 <= i < (before + last).len() implies !has_local(
            rows,
            (#[trigger] (before + last)[i]).name,
        ) by {
            if i < before.len() {
                assert((before + last)[i] == before[i]);
            } else {
                assert((before + last)[i] == last[i - before.len()]);
            }
        }
    }
}

/// A local branch shadows the branches of its name of every remote, and none is lost.
pub proof fn lemma_locals_shadow_remotes(
    view: BranchViewV,
    remote: Seq<char>,
    incoming: Seq<BranchEntryV>,
)
    ensures
        ({
            let after = view.with_snapshot(remote, incoming).entries;
            &&& forall|i: int|
                0 <= i < view.entries.len() && (#[trigger] view.entries[i]).remote is None
                    ==> after.contains(view.entries[i])
            &&& forall|i: int|
                0 <= i < after.len() && (#[trigger] after[i]).remote is Some ==> !has_local(
                    view.entries,
                    after[i].name,
                )
        }),
{
    let after = view.with_snapshot(remote, incoming);
    let locals = local_rows(view.entries);
    let others = remote_rows(after.remote_branches, locals);
    let all = locals + others;
    let le = not_after(rank_branches());
    lemma_local_rows(view.entries);
    lemma_remote_rows(after.remote_branches, locals);
    assert forall|i: int|
        0 <= i < view.entries.len() && (#[trigger] view.entries[i]).remote
            is None implies after.entries.contains(view.entries[i]) by {
        let at = choose|k: int| 0 <= k < locals.len() && locals[k] == view.entries[i];
        assert(all[at] == view.entries[i]);
        lemma_sorted_contains(all, le, at);
    }
    let places = lemma_sorted_branches(all);
    assert forall|i: int|
        0 <= i < after.entries.len() && (#[trigger] after.entries[i]).remote
            is Some implies !has_local(view.entries, after.entries[i].name) by {
        let from = places[i];
        assert(after.entries[i] == all[from]);
        if from < locals.len() {
            assert(all[from] == locals[from]);
        } else {
            let row = others[from - locals.len()];
            assert(all[from] == row);
            assert(!has_local(locals, row.name));
            if has_local(view.entries, row.name) {
                let k = choose|k: int|
                    0 <= k < view.entries.len() && (#[trigger] view.entries[k]).remote is None
                        && view.entries[k].name == row.name;
                let at = choose|n: int| 0 <= n < locals.len() && locals[n] == view.entries[k];
                assert(locals[at].remote is None && locals[at].name == row.name);
            }
        }
    }
}

/// An answer to an earlier visit changes nothing.
pub proof fn lemma_late_answers_are_dropped(
    event: AppEvent,
    state: AppStateV,
    changes: TickChangesV,
    now: u64,
)
    requires
        match event {
            AppEvent::BranchesLoaded { generation, .. } => generation
                != state.branch_view.generation,
            AppEvent::BranchLoadFailed { generation, .. } => generation
                != state.branch_view.generation,
            AppEvent::RemoteBranchesLoaded { generation, .. } => generation
                != state.branch_view.generation,
            AppEvent::RemoteBranchLoadFailed { generation, .. } => generation
                != state.branch_view.generation,
            AppEvent::GitFetchCompleted { generation, .. } => generation
                != state.branch_view.generation,
            AppEvent::OpenWorktreesLoaded { generation, .. } => generation
                != state.branch_view.generation,
            AppEvent::OpenWorktreesFailed { generation, .. } => generation
                != state.branch_view.generation,
            _ => false,
        },
    ensures
        after_event(event, state, changes, now) == Some((state, changes)),
{
}

/// Going to the branches and back leaves the list of repositories as it was.
pub proof fn lemma_visit_keeps_repos(state: AppStateV, inside_herdr: bool)
    ensures
        after_enter(state, inside_herdr).0.repo_view == state.repo_view,
{
}

} // verus!
