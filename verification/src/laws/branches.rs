//! The branches of a repository.

use crate::branches::{checkout_of, deepest_checkout, lemma_sorted_branches, local_entry, rank_branches, remote_entries, sorted_branches, workspace_at, BranchEntryV, BranchIdV};
use crate::effects::{EffectV, TickChangesV};
use crate::event::{AppEvent, BranchOperationFailure, FilterKeyV, FilterTarget};
use crate::git::WorktreeV;
use crate::herdr::WorktreeInfoV;
use crate::laws::lists::{highlights, lemma_filter_holds, lemma_filter_step, shows};
use crate::laws::texts::{holds, lemma_holds_middle};
use crate::order::{lemma_sorted_contains, not_after, rank_text, Rank};
use crate::path::{parts, same_path, same_place, within, PathRules};
use crate::screens::branch::{after_enter, after_event, after_open, after_open_selected, grown, has_local, lemma_local_rows, lemma_place_of_remote, local_rows, place_of_remote, remote_rows, snapshot_of, unshadowed, without_remote_name, BranchViewV, OpenWorktreeLoadStateV, RemoteBranchesV};
use crate::state::{AppStateV, ModeV};
use crate::toasts::ToastKind;
use vstd::prelude::*;
use vstd::string::*;
use vstd::utf8::encode_utf8;

verus! {

/// Going to the branches goes to those of the highlighted repository, whatever was searched for:
/// nothing of an earlier visit is left, the visit has a number of its own, and what is asked for
/// is of that repository and that visit; the open checkouts are only asked for inside of herdr.
/// A folder without git is refused.
pub proof fn lemma_visit_is_to_the_highlighted_repository(
    state: AppStateV,
    item: int,
    inside_herdr: bool,
)
    requires
        0 <= item < state.repo_view.entries.len(),
        highlights(state.repo_view.list, item),
        state.branch_view.generation < u64::MAX,
    ensures
        ({
            let (after, effects) = after_enter(state, inside_herdr);
            let repo = state.repo_view.entries[item].repo;
            let visit = after.branch_view.generation;
            &&& !repo.is_git ==> effects.len() == 0 && after == state.told(
                ToastKind::Error,
                "Branches are only available for git repositories"@,
            )
            &&& repo.is_git ==> {
                &&& after.mode matches ModeV::BranchSelect(context) && context.repo_path
                    == repo.path && context.repo_name == repo.name
                &&& visit == state.branch_view.generation + 1
                &&& after.branch_view.loading
                &&& after.branch_view.entries.len() == 0
                &&& after.branch_view.list.filtered.len() == 0
                &&& after.branch_view.list.input.text.len() == 0
                &&& after.branch_view.list.selected is None
                &&& after.branch_view.remote_branches.len() == 0
                &&& after.branch_view.open_worktrees.len() == 0
                &&& after.branch_view.open_worktree_load_state is Unknown
                &&& after.branch_view.fetching_remote_repo is None
                &&& effects.len() == (if inside_herdr {
                    2int
                } else {
                    1
                })
                &&& effects[0] == (EffectV::LoadBranches {
                    repo,
                    cwd: state.repo_view.current_cwd,
                    generation: visit,
                })
                &&& inside_herdr ==> effects[1] == (EffectV::LoadOpenWorktrees {
                    repo_path: repo.path,
                    generation: visit,
                })
                &&& after.delete == state.delete
                &&& after.toasts == state.toasts
            }
        }),
{
}

/// Opening a branch opens that branch in the repository at hand: a remote one by its remote, a
/// local one by its checkout where it has one; its name is shown meanwhile, and nothing else
/// changes. Outside of herdr it is an error.
pub proof fn lemma_branch_is_opened_as_it_is(
    state: AppStateV,
    branch: BranchEntryV,
    inside_herdr: bool,
)
    requires
        state.mode is BranchSelect,
    ensures
        ({
            let (after, effect) = after_open(state, branch, inside_herdr);
            let context = state.mode->BranchSelect_0;
            if inside_herdr {
                &&& branch.remote matches Some(remote) ==> effect == Some(
                    EffectV::OpenRemoteBranch {
                        repo_path: context.repo_path,
                        branch_name: branch.name,
                        remote,
                    },
                )
                &&& branch.remote is None ==> effect == Some(
                    EffectV::OpenBranch {
                        repo_path: context.repo_path,
                        branch_name: branch.name,
                        has_worktree: branch.worktree_path is Some,
                    },
                )
                &&& after.mode matches ModeV::Loading { message, branch: of } && of == Some(context)
                    && holds(message, branch.name)
                &&& after == (AppStateV { mode: after.mode, ..state })
            } else {
                effect is None && after == state.told(
                    ToastKind::Error,
                    "not running inside herdr"@,
                )
            }
        }),
{
    lemma_holds_middle("Checking out remote branch "@, branch.name, "…"@);
    lemma_holds_middle("Opening "@, branch.name, "…"@);
    lemma_holds_middle("Creating worktree for "@, branch.name, "…"@);
}

/// Opening the selection opens the branch of the highlighted row, whatever was searched for.
pub proof fn lemma_highlighted_branch_is_opened(state: AppStateV, item: int, inside_herdr: bool)
    requires
        state.mode is BranchSelect,
        0 <= item < state.branch_view.entries.len(),
        highlights(state.branch_view.list, item),
    ensures
        inside_herdr ==> match after_open_selected(state, inside_herdr).1 {
            Some(EffectV::OpenBranch { repo_path, branch_name, has_worktree }) => {
                &&& repo_path == state.mode->BranchSelect_0.repo_path
                &&& branch_name == state.branch_view.entries[item].name
                &&& state.branch_view.entries[item].remote is None
                &&& has_worktree == state.branch_view.entries[item].worktree_path is Some
            },
            Some(EffectV::OpenRemoteBranch { repo_path, branch_name, remote }) => {
                &&& repo_path == state.mode->BranchSelect_0.repo_path
                &&& branch_name == state.branch_view.entries[item].name
                &&& state.branch_view.entries[item].remote == Some(remote)
            },
            _ => false,
        },
        !inside_herdr ==> after_open_selected(state, inside_herdr).1 is None,
{
}

/// The branch that is opened or asked about is the one of the highlighted row, and there is none
/// where no row is highlighted.
pub proof fn lemma_selected_branch_is_highlighted(view: BranchViewV)
    ensures
        match view.selected() {
            Some(branch) => exists|item: int|
                0 <= item < view.entries.len() && #[trigger] highlights(view.list, item) && shows(
                    view.list,
                    item,
                ) && branch == view.entries[item],
            None => forall|item: int|
                0 <= item < view.entries.len() ==> !#[trigger] highlights(view.list, item),
        },
{
    if view.list.selected is Some && view.list.selected->0 < view.list.filtered.len() {
        let item = view.list.filtered[view.list.selected->0 as int].0 as int;
        assert(highlights(view.list, item));
        assert(shows(view.list, item));
    }
}

proof fn lemma_workspace_at(worktrees: Seq<WorktreeInfoV>, path: Seq<u8>, rules: PathRules)
    ensures
        match workspace_at(worktrees, path, rules) {
            Some(id) => exists|i: int|
                0 <= i < worktrees.len() && (#[trigger] worktrees[i]).open_workspace_id == Some(id)
                    && same_place(encode_utf8(worktrees[i].path), path, rules) && forall|j: int|
                    0 <= j < i ==> !same_place(
                        encode_utf8((#[trigger] worktrees[j]).path),
                        path,
                        rules,
                    ),
            None => forall|i: int|
                0 <= i < worktrees.len() && same_place(
                    encode_utf8((#[trigger] worktrees[i]).path),
                    path,
                    rules,
                ) && (forall|j: int|
                    0 <= j < i ==> !same_place(
                        encode_utf8((#[trigger] worktrees[j]).path),
                        path,
                        rules,
                    )) ==> worktrees[i].open_workspace_id is None,
        },
    decreases worktrees.len(),
{
    if worktrees.len() > 0 {
        if same_place(encode_utf8(worktrees[0].path), path, rules) {
            if workspace_at(worktrees, path, rules) is Some {
                assert(worktrees[0].open_workspace_id is Some);
            }
        } else {
            let rest = worktrees.drop_first();
            lemma_workspace_at(rest, path, rules);
            match workspace_at(rest, path, rules) {
                Some(id) => {
                    let i = choose|i: int|
                        0 <= i < rest.len() && (#[trigger] rest[i]).open_workspace_id == Some(id)
                            && same_place(encode_utf8(rest[i].path), path, rules) && forall|j: int|
                            0 <= j < i ==> !same_place(
                                encode_utf8((#[trigger] rest[j]).path),
                                path,
                                rules,
                            );
                    assert(worktrees[i + 1] == rest[i]);
                    assert forall|j: int| 0 <= j < i + 1 implies !same_place(
                        encode_utf8((#[trigger] worktrees[j]).path),
                        path,
                        rules,
                    ) by {
                        if j > 0 {
                            assert(worktrees[j] == rest[j - 1]);
                        }
                    }
                },
                None => {
                    assert forall|i: int|
                        0 <= i < worktrees.len() && same_place(
                            encode_utf8((#[trigger] worktrees[i]).path),
                            path,
                            rules,
                        ) && (forall|j: int|
                            0 <= j < i ==> !same_place(
                                encode_utf8((#[trigger] worktrees[j]).path),
                                path,
                                rules,
                            )) implies worktrees[i].open_workspace_id is None by {
                        assert(rest[i - 1] == worktrees[i]);
                        assert forall|j: int| 0 <= j < i - 1 implies !same_place(
                            encode_utf8((#[trigger] rest[j]).path),
                            path,
                            rules,
                        ) by {
                            assert(rest[j] == worktrees[j + 1]);
                        }
                    }
                },
            }
        }
    }
}

/// Whether a branch is shown as open rests on the checkout that herdr lists at its path: the
/// first one there says by its workspace. A branch without a checkout is not open, and nothing
/// else of a row changes.
pub proof fn lemma_open_branches_follow_herdr(view: BranchViewV, item: int)
    requires
        0 <= item < view.entries.len(),
    ensures
        ({
            let after = view.marked_open();
            let row = after.entries[item];
            let there = |i: int|
                0 <= i < view.open_worktrees.len() && same_place(
                    encode_utf8(view.open_worktrees[i].path),
                    view.entries[item].worktree_path->0,
                    view.path_rules,
                );
            &&& after.entries.len() == view.entries.len()
            &&& row == (BranchEntryV {
                open_workspace_id: row.open_workspace_id,
                ..view.entries[item]
            })
            &&& view.entries[item].worktree_path is None ==> row.open_workspace_id is None
            &&& row.open_workspace_id matches Some(id) ==> exists|i: int| #[trigger]
                there(i) && view.open_worktrees[i].open_workspace_id == Some(id)
            &&& view.entries[item].worktree_path is Some && row.open_workspace_id is None
                ==> forall|i: int| #[trigger]
                there(i) && (forall|j: int| 0 <= j < i ==> !#[trigger] there(j))
                    ==> view.open_worktrees[i].open_workspace_id is None
        }),
{
    let there = |i: int|
        0 <= i < view.open_worktrees.len() && same_place(
            encode_utf8(view.open_worktrees[i].path),
            view.entries[item].worktree_path->0,
            view.path_rules,
        );
    if view.entries[item].worktree_path is Some {
        let path = view.entries[item].worktree_path->0;
        lemma_workspace_at(view.open_worktrees, path, view.path_rules);
        let row = view.marked_open().entries[item];
        match row.open_workspace_id {
            Some(id) => {
                let i = choose|i: int|
                    0 <= i < view.open_worktrees.len() && (
                    #[trigger] view.open_worktrees[i]).open_workspace_id == Some(id) && same_place(
                        encode_utf8(view.open_worktrees[i].path),
                        path,
                        view.path_rules,
                    );
                assert(there(i));
            },
            None => {
                assert forall|i: int| #[trigger]
                    there(i) && (forall|j: int|
                        0 <= j < i ==> !#[trigger] there(
                            j,
                        )) implies view.open_worktrees[i].open_workspace_id is None by {
                    assert forall|j: int| 0 <= j < i implies !same_place(
                        encode_utf8((#[trigger] view.open_worktrees[j]).path),
                        path,
                        view.path_rules,
                    ) by {
                        assert(!there(j));
                    }
                }
            },
        }
    }
}

/// Branches that are loaded for the visit at hand are shown as they came, the checkouts of their
/// repository are known from then on, remote branches are asked for next, and what was to be
/// selected is. Those of another visit or repository change nothing.
pub proof fn lemma_loaded_branches_are_shown(
    event: AppEvent,
    state: AppStateV,
    changes: TickChangesV,
    now: u64,
)
    requires
        event is BranchesLoaded,
    ensures
        ({
            let (after, changed) = after_event(event, state, changes, now)->0;
            let repo_path = event->BranchesLoaded_repo_path@;
            let branches = event->BranchesLoaded_branches.deep_view();
            let visit = event->BranchesLoaded_generation;
            let ours = state.mode is BranchSelect && same_path(
                state.mode->BranchSelect_0.repo_path,
                repo_path,
                state.repo_view.path_rules,
            ) && state.branch_view.generation == visit;
            &&& after_event(event, state, changes, now) is Some
            &&& !ours ==> after == state && changed == changes
            &&& ours ==> {
                &&& after.mode == state.mode
                &&& !after.branch_view.loading
                &&& after.branch_view.entries.len() == branches.len()
                &&& forall|i: int|
                    0 <= i < branches.len() ==> (#[trigger] after.branch_view.entries[i])
                        == (BranchEntryV {
                        open_workspace_id: after.branch_view.entries[i].open_workspace_id,
                        ..branches[i]
                    })
                &&& after.branch_view.generation == visit
                &&& after.branch_view.fetching_remote_repo == Some(repo_path)
                &&& after.branch_view.remote_branches.len() == 0
                &&& changed.branches_changed
                &&& changed.start_remote_loading matches Some(loading) && loading.repo_path
                    == repo_path && loading.generation == visit && loading.local_names.len()
                    == branches.len() && forall|i: int|
                    0 <= i < branches.len() ==> #[trigger] loading.local_names[i]
                        == branches[i].name
                &&& state.branch_view.pending_selection is Some ==> changed.pinned_branch_selection
                    == state.branch_view.pending_selection
                &&& after.repo_view == state.repo_view.with_worktrees(
                    repo_path,
                    event->BranchesLoaded_worktrees.deep_view(),
                )
            }
        }),
{
}

/// A failure to load the branches of the visit at hand brings the repositories back and is told.
/// A failure to list open checkouts is told, and it counts as not known what is open.
pub proof fn lemma_loading_failures_are_told(
    event: AppEvent,
    state: AppStateV,
    changes: TickChangesV,
    now: u64,
)
    requires
        state.mode is BranchSelect,
    ensures
        event matches AppEvent::BranchLoadFailed { repo_path, generation, message } ==> (same_path(
            state.mode->BranchSelect_0.repo_path,
            repo_path@,
            state.repo_view.path_rules,
        ) && generation == state.branch_view.generation ==> (after_event(event, state, changes, now)
            matches Some((after, _)) && after.mode == ModeV::RepoSelect && after.toasts
            == state.told(ToastKind::Error, message@).toasts && !after.branch_view.loading)),
        event matches AppEvent::OpenWorktreesFailed { repo_path, generation, message } ==> (
        same_path(
            state.mode->BranchSelect_0.repo_path,
            repo_path@,
            state.repo_view.path_rules,
        ) && generation == state.branch_view.generation ==> (after_event(event, state, changes, now)
            matches Some((after, _)) && after.mode == state.mode && after.toasts == state.told(
            ToastKind::Error,
            message@,
        ).toasts && after.branch_view.open_worktrees.len() == 0
            && after.branch_view.open_worktree_load_state is Failed)),
        event matches AppEvent::OpenWorktreesLoaded { repo_path, generation, worktrees } ==> (
        same_path(
            state.mode->BranchSelect_0.repo_path,
            repo_path@,
            state.repo_view.path_rules,
        ) && generation == state.branch_view.generation ==> (after_event(event, state, changes, now)
            matches Some((after, changed)) && after.mode == state.mode && after.toasts
            == state.toasts && after.branch_view.open_worktrees == worktrees.deep_view()
            && changed.resume_pending_deletes && (after.branch_view.open_worktree_load_state matches
            OpenWorktreeLoadStateV::Loaded { repo_path: of, generation: visit } && of == repo_path@
            && visit == generation))),
{
}

/// A branch that could not be opened brings the branches back with what went wrong. Where the
/// local branch is there by now, the branches are loaded anew with it selected, and nothing is
/// left of what was typed.
pub proof fn lemma_failed_opening_comes_back(
    event: AppEvent,
    state: AppStateV,
    changes: TickChangesV,
    now: u64,
)
    requires
        event is BranchOperationFailed,
    ensures
        ({
            let (after, changed) = after_event(event, state, changes, now)->0;
            let repo_path = event->BranchOperationFailed_repo_path@;
            let ours = state.mode matches ModeV::Loading { branch: Some(context), .. } && same_path(
                context.repo_path,
                repo_path,
                state.repo_view.path_rules,
            );
            let context = state.mode->Loading_branch->0;
            &&& after_event(event, state, changes, now) is Some
            &&& !ours ==> after == state && changed == changes
            &&& ours ==> after.mode == ModeV::BranchSelect(context)
            &&& ours ==> match event->BranchOperationFailed_failure {
                BranchOperationFailure::Failed(message) => after.toasts == state.told(
                    ToastKind::Error,
                    message@,
                ).toasts && after.branch_view == state.branch_view && changed == changes,
                BranchOperationFailure::LocalBranchAvailable {
                    branch_name,
                    tracking_created,
                    message,
                } => {
                    &&& exists|text: Seq<char>|
                        after.toasts == #[trigger] state.told(ToastKind::Error, text).toasts
                            && holds(text, branch_name@) && holds(text, message@)
                    &&& after.branch_view.loading
                    &&& after.branch_view.list.input.text.len() == 0
                    &&& after.branch_view.pending_selection == Some(BranchIdV::Local(branch_name@))
                    &&& changed.pinned_branch_selection == Some(BranchIdV::Local(branch_name@))
                    &&& changed.branches_changed
                },
            }
        }),
{
    match event {
        AppEvent::BranchOperationFailed {
            repo_path,
            failure: BranchOperationFailure::LocalBranchAvailable {
                branch_name,
                tracking_created,
                message,
            },
        } => {
            let none = Seq::<char>::empty();
            let (start, middle) = if tracking_created {
                ("Tracking branch "@, " was created, but its checkout could not be opened: "@)
            } else {
                ("Local branch "@, " now exists, but its checkout could not be opened: "@)
            };
            let text = start + branch_name@ + middle + message@;
            lemma_holds_middle(start, branch_name@, middle + message@);
            assert(start + branch_name@ + (middle + message@) =~= text);
            lemma_holds_middle(start + branch_name@ + middle, message@, none);
            assert(start + branch_name@ + middle + message@ + none =~= text);
            let (after, changed) = after_event(event, state, changes, now)->0;
            if state.mode is Loading && state.mode->Loading_branch is Some && same_path(
                state.mode->Loading_branch->0.repo_path,
                repo_path@,
                state.repo_view.path_rules,
            ) {
                assert(after.toasts == state.told(ToastKind::Error, text).toasts);
            }
        },
        _ => {},
    }
}

/// A search among the branches asks about all of them, each under what it is and by its name,
/// that of a remote branch behind its remote. With nothing typed all of them are shown, and what
/// is asked for is highlighted, else the first one.
pub proof fn lemma_branches_are_searched_by_name(view: BranchViewV, wanted: Option<BranchIdV>)
    requires
        view.entries.len() <= usize::MAX,
    ensures
        ({
            let (after, request) = view.refiltered(wanted);
            &&& after.entries == view.entries
            &&& after.filter_generation != view.filter_generation
            &&& request is Some <==> view.list.input.text.len() > 0
            &&& request matches Some(asked) ==> {
                &&& asked.target == FilterTarget::Branches
                &&& asked.query == view.list.input.text
                &&& asked.generation == after.filter_generation
                &&& asked.items.len() == view.entries.len()
                &&& forall|i: int|
                    0 <= i < view.entries.len() ==> (#[trigger] asked.items[i]).text == (
                    match view.entries[i].remote {
                        Some(remote) => remote + "/"@ + view.entries[i].name,
                        None => view.entries[i].name,
                    }) && asked.items[i].key == FilterKeyV::Branch(
                        match view.entries[i].remote {
                            Some(remote) => BranchIdV::Remote {
                                remote,
                                name: view.entries[i].name,
                            },
                            None => BranchIdV::Local(view.entries[i].name),
                        },
                    )
            }
            &&& request is None ==> {
                &&& after.list.filtered.len() == view.entries.len()
                &&& forall|i: int|
                    0 <= i < view.entries.len() ==> (#[trigger] after.list.filtered[i]).0 == i
                &&& after.list.scroll_offset == 0
                &&& wanted is None && view.entries.len() > 0 ==> highlights(after.list, 0)
            }
        }),
{
    let (after, request) = view.refiltered(wanted);
    if request is None && wanted is None && view.entries.len() > 0 {
        assert(after.list.filtered[0].0 == 0);
    }
}

/// Whether a branch may stand before another one: local ones before remote ones, then the
/// current one, the default one, those with a checkout, and then by name.
pub open spec fn may_precede(first: BranchEntryV, second: BranchEntryV) -> bool {
    if first.remote is Some != second.remote is Some {
        first.remote is None
    } else if first.is_current != second.is_current {
        first.is_current
    } else if first.is_default != second.is_default {
        first.is_default
    } else if first.worktree_path is Some != second.worktree_path is Some {
        first.worktree_path is Some
    } else {
        rank_text(first.name, second.name) != Rank::Greater
    }
}

/// Sorting puts every pair of branches into order, keeps every branch and adds none.
pub proof fn lemma_branches_are_in_order(entries: Seq<BranchEntryV>) -> (places: Seq<int>)
    ensures
        ({
            let sorted = sorted_branches(entries);
            &&& sorted.len() == entries.len()
            &&& places.len() == entries.len()
            &&& forall|i: int|
                0 <= i < sorted.len() ==> 0 <= #[trigger] places[i] < entries.len() && sorted[i]
                    == entries[places[i]]
            &&& forall|i: int, j: int|
                0 <= i < j < sorted.len() ==> (#[trigger] places[i]) != (#[trigger] places[j])
            &&& forall|i: int, j: int|
                0 <= i < j < sorted.len() ==> may_precede(
                    #[trigger] sorted[i],
                    #[trigger] sorted[j],
                )
        }),
{
    let sorted = sorted_branches(entries);
    let places = lemma_sorted_branches(entries);
    let le = not_after(rank_branches());
    assert forall|i: int, j: int| 0 <= i < j < sorted.len() implies may_precede(
        #[trigger] sorted[i],
        #[trigger] sorted[j],
    ) by {
        assert(le(sorted[i], sorted[j]));
    }
    places
}

proof fn lemma_checkout_of(worktrees: Seq<WorktreeV>, name: Seq<char>)
    ensures
        match checkout_of(worktrees, name) {
            Some(path) => exists|i: int|
                0 <= i < worktrees.len() && (#[trigger] worktrees[i]).branch == Some(name)
                    && worktrees[i].path == path,
            None => forall|i: int|
                0 <= i < worktrees.len() ==> (#[trigger] worktrees[i]).branch != Some(name),
        },
    decreases worktrees.len(),
{
    if worktrees.len() > 0 {
        let before = worktrees.drop_last();
        lemma_checkout_of(before, name);
        if worktrees.last().branch == Some(name) {
            assert(worktrees[worktrees.len() - 1].branch == Some(name));
        } else {
            match checkout_of(before, name) {
                Some(path) => {
                    let i = choose|i: int|
                        0 <= i < before.len() && (#[trigger] before[i]).branch == Some(name)
                            && before[i].path == path;
                    assert(worktrees[i] == before[i]);
                },
                None => {
                    assert forall|i: int| 0 <= i < worktrees.len() implies (
                    #[trigger] worktrees[i]).branch != Some(name) by {
                        if i < before.len() {
                            assert(worktrees[i] == before[i]);
                        }
                    }
                },
            }
        }
    }
}

proof fn lemma_deepest_checkout(worktrees: Seq<WorktreeV>, cwd: Seq<u8>, rules: PathRules)
    ensures
        match deepest_checkout(worktrees, cwd, rules) {
            Some(found) => worktrees.contains(found) && within(cwd, found.path, rules) && forall|
                i: int,
            |
                0 <= i < worktrees.len() && within(cwd, (#[trigger] worktrees[i]).path, rules)
                    ==> parts(worktrees[i].path, rules).len() <= parts(found.path, rules).len(),
            None => forall|i: int|
                0 <= i < worktrees.len() ==> !within(cwd, (#[trigger] worktrees[i]).path, rules),
        },
    decreases worktrees.len(),
{
    if worktrees.len() > 0 {
        let before = worktrees.drop_last();
        lemma_deepest_checkout(before, cwd, rules);
        assert forall|i: int| 0 <= i < before.len() implies #[trigger] worktrees[i]
            == before[i] by {}
        match deepest_checkout(before, cwd, rules) {
            Some(found) => {
                let i = choose|i: int| 0 <= i < before.len() && before[i] == found;
                assert(worktrees[i] == found);
            },
            None => {},
        }
        assert(worktrees.contains(worktrees[worktrees.len() - 1]));
    }
}

/// The row of a local branch has the checkout that has the branch, where there is one; it is the
/// default one where its name is that of the default branch, and the current one where the
/// innermost checkout that the user is in has it.
pub proof fn lemma_local_branch_has_its_checkout(
    worktrees: Seq<WorktreeV>,
    name: Seq<char>,
    default_branch: Option<Seq<char>>,
    cwd: Option<Seq<u8>>,
    rules: PathRules,
)
    ensures
        ({
            let row = local_entry(worktrees, name, default_branch, cwd, rules);
            &&& row.name == name
            &&& row.remote is None
            &&& row.open_workspace_id is None
            &&& row.is_default <==> default_branch == Some(name)
            &&& match row.worktree_path {
                Some(path) => exists|i: int|
                    0 <= i < worktrees.len() && (#[trigger] worktrees[i]).branch == Some(name)
                        && worktrees[i].path == path,
                None => forall|i: int|
                    0 <= i < worktrees.len() ==> (#[trigger] worktrees[i]).branch != Some(name),
            }
            &&& row.is_current ==> cwd is Some && exists|i: int|
                0 <= i < worktrees.len() && (#[trigger] worktrees[i]).branch == Some(name)
                    && within(cwd->0, worktrees[i].path, rules) && forall|j: int|
                    0 <= j < worktrees.len() && within(
                        cwd->0,
                        (#[trigger] worktrees[j]).path,
                        rules,
                    ) ==> parts(worktrees[j].path, rules).len() <= parts(
                        worktrees[i].path,
                        rules,
                    ).len()
            &&& cwd is Some && (exists|i: int|
                0 <= i < worktrees.len() && (#[trigger] worktrees[i]).branch == Some(name)
                    && within(cwd->0, worktrees[i].path, rules) && forall|j: int|
                    0 <= j < worktrees.len() && j != i && within(
                        cwd->0,
                        (#[trigger] worktrees[j]).path,
                        rules,
                    ) ==> parts(worktrees[j].path, rules).len() < parts(
                        worktrees[i].path,
                        rules,
                    ).len()) ==> row.is_current
        }),
{
    lemma_checkout_of(worktrees, name);
    if cwd is Some {
        let at = cwd->0;
        lemma_deepest_checkout(worktrees, at, rules);
        match deepest_checkout(worktrees, at, rules) {
            Some(found) => {
                let k = choose|k: int| 0 <= k < worktrees.len() && worktrees[k] == found;
                assert(within(at, worktrees[k].path, rules));
                if exists|i: int|
                    0 <= i < worktrees.len() && (#[trigger] worktrees[i]).branch == Some(name)
                        && within(at, worktrees[i].path, rules) && forall|j: int|
                        0 <= j < worktrees.len() && j != i && within(
                            at,
                            (#[trigger] worktrees[j]).path,
                            rules,
                        ) ==> parts(worktrees[j].path, rules).len() < parts(
                            worktrees[i].path,
                            rules,
                        ).len() {
                    let i = choose|i: int|
                        0 <= i < worktrees.len() && (#[trigger] worktrees[i]).branch == Some(name)
                            && within(at, worktrees[i].path, rules) && forall|j: int|
                            0 <= j < worktrees.len() && j != i && within(
                                at,
                                (#[trigger] worktrees[j]).path,
                                rules,
                            ) ==> parts(worktrees[j].path, rules).len() < parts(
                                worktrees[i].path,
                                rules,
                            ).len();
                    assert(k == i);
                }
            },
            None => {},
        }
    }
}

/// The branches of a remote are those that no local branch has the name of, each of that remote
/// and in their order.
pub proof fn lemma_remote_branches_are_not_local(
    remote: Seq<char>,
    names: Seq<Seq<char>>,
    local_names: Seq<Seq<char>>,
)
    ensures
        ({
            let rows = remote_entries(remote, names, local_names);
            let kept = names.filter(|name: Seq<char>| !local_names.contains(name));
            &&& rows.len() == kept.len()
            &&& forall|i: int|
                0 <= i < rows.len() ==> (#[trigger] rows[i]).name == kept[i] && rows[i].remote
                    == Some(remote) && rows[i].worktree_path is None && !rows[i].is_current
                    && !rows[i].is_default && rows[i].open_workspace_id is None
        }),
    decreases names.len(),
{
    let keep = |name: Seq<char>| !local_names.contains(name);
    lemma_filter_step(names, keep);
    if names.len() > 0 {
        let before = names.drop_last();
        lemma_remote_branches_are_not_local(remote, before, local_names);
        let inner = remote_entries(remote, before, local_names);
        let rows = remote_entries(remote, names, local_names);
        assert forall|i: int| 0 <= i < inner.len() implies #[trigger] rows[i] == inner[i] by {}
    }
}

proof fn lemma_grown_holds(
    known: Seq<BranchEntryV>,
    incoming: Seq<BranchEntryV>,
    id: BranchIdV,
)
    ensures
        (exists|i: int| 0 <= i < grown(known, incoming).len() && (#[trigger] grown(
            known,
            incoming,
        )[i]).id() == id) <==> (exists|i: int|
            0 <= i < known.len() && (#[trigger] known[i]).id() == id) || (exists|i: int|
            0 <= i < incoming.len() && (#[trigger] incoming[i]).id() == id),
    decreases incoming.len(),
{
    if incoming.len() > 0 {
        let before = incoming.drop_last();
        let inner = grown(known, before);
        let all = grown(known, incoming);
        lemma_grown_holds(known, before, id);
        assert forall|i: int| 0 <= i < before.len() implies #[trigger] incoming[i]
            == before[i] by {}
        assert forall|i: int| 0 <= i < inner.len() implies #[trigger] all[i] == inner[i] by {}
        if exists|i: int| 0 <= i < incoming.len() && (#[trigger] incoming[i]).id() == id {
            let i = choose|i: int| 0 <= i < incoming.len() && (#[trigger] incoming[i]).id() == id;
            if i < before.len() {
                assert(before[i].id() == id);
                let k = choose|k: int| 0 <= k < inner.len() && (#[trigger] inner[k]).id() == id;
                assert(all[k].id() == id);
            } else if all.len() == inner.len() {
                let k = choose|k: int| 0 <= k < inner.len() && (#[trigger] inner[k]).id() == id;
                assert(all[k].id() == id);
            } else {
                assert(all[all.len() - 1].id() == id);
            }
        }
        if exists|i: int| 0 <= i < known.len() && (#[trigger] known[i]).id() == id {
            let k = choose|k: int| 0 <= k < inner.len() && (#[trigger] inner[k]).id() == id;
            assert(all[k].id() == id);
        }
        if exists|i: int| 0 <= i < all.len() && (#[trigger] all[i]).id() == id {
            let i = choose|i: int| 0 <= i < all.len() && (#[trigger] all[i]).id() == id;
            if i < inner.len() {
                assert(inner[i].id() == id);
                if exists|k: int| 0 <= k < before.len() && (#[trigger] before[k]).id() == id {
                    let k = choose|k: int|
                        0 <= k < before.len() && (#[trigger] before[k]).id() == id;
                    assert(incoming[k].id() == id);
                }
            } else {
                assert(incoming[incoming.len() - 1].id() == id);
            }
        }
    }
}

proof fn lemma_unshadowed_is_choice(branches: Seq<BranchEntryV>, rows: Seq<BranchEntryV>)
    ensures
        unshadowed(branches, rows) == branches.filter(
            |branch: BranchEntryV| !has_local(rows, branch.name),
        ),
    decreases branches.len(),
{
    lemma_filter_step(branches, |branch: BranchEntryV| !has_local(rows, branch.name));
    if branches.len() > 0 {
        lemma_unshadowed_is_choice(branches.drop_last(), rows);
    }
}

proof fn lemma_remote_rows_hold(
    remotes: Seq<RemoteBranchesV>,
    rows: Seq<BranchEntryV>,
    at: int,
    i: int,
)
    requires
        0 <= at < remotes.len(),
        0 <= i < remotes[at].branches.len(),
        !has_local(rows, remotes[at].branches[i].name),
    ensures
        remote_rows(remotes, rows).contains(remotes[at].branches[i]),
    decreases remotes.len(),
{
    let all = remote_rows(remotes, rows);
    let before = remote_rows(remotes.drop_last(), rows);
    let branch = remotes[at].branches[i];
    if at == remotes.len() - 1 {
        let keep = |branch: BranchEntryV| !has_local(rows, branch.name);
        lemma_unshadowed_is_choice(remotes[at].branches, rows);
        lemma_filter_holds(remotes[at].branches, keep);
        assert(keep(remotes[at].branches[i]));
        let kept = unshadowed(remotes[at].branches, rows);
        let k = choose|k: int| 0 <= k < kept.len() && kept[k] == branch;
        assert(all[before.len() + k] == branch);
    } else {
        assert(remotes.drop_last()[at] == remotes[at]);
        lemma_remote_rows_hold(remotes.drop_last(), rows, at, i);
        let k = choose|k: int| 0 <= k < before.len() && before[k] == branch;
        assert(all[k] == branch);
    }
}

/// A branch that a remote reports is shown from then on, unless a local branch has its name; and
/// so is every branch of that remote that was known before, and of every other remote.
pub proof fn lemma_remote_branches_are_shown(
    view: BranchViewV,
    remote: Seq<char>,
    incoming: Seq<BranchEntryV>,
)
    ensures
        ({
            let after = view.with_snapshot(remote, incoming);
            &&& forall|i: int|
                0 <= i < incoming.len() && !has_local(view.entries, (#[trigger] incoming[i]).name)
                    && incoming[i].remote is Some ==> is_shown(after.entries, incoming[i].id())
            &&& forall|i: int|
                0 <= i < snapshot_of(view.remote_branches, remote).len() && !has_local(
                    view.entries,
                    (#[trigger] snapshot_of(view.remote_branches, remote)[i]).name,
                ) && snapshot_of(view.remote_branches, remote)[i].remote is Some ==> is_shown(
                    after.entries,
                    snapshot_of(view.remote_branches, remote)[i].id(),
                )
            &&& forall|k: int, i: int|
                0 <= k < view.remote_branches.len() && 0 <= i
                    < view.remote_branches[k].branches.len() && view.remote_branches[k].remote
                    != remote && !has_local(
                    view.entries,
                    (#[trigger] view.remote_branches[k].branches[i]).name,
                ) ==> is_shown(after.entries, view.remote_branches[k].branches[i].id())
        }),
{
    let after = view.with_snapshot(remote, incoming);
    let locals = local_rows(view.entries);
    let known = snapshot_of(view.remote_branches, remote);
    let news = grown(known, incoming);
    let merged = sorted_branches(news);
    let remotes = after.remote_branches;
    let place = place_of_remote(view.remote_branches, remote);
    lemma_place_of_remote(view.remote_branches, remote);
    lemma_local_rows(view.entries);
    assert(remotes[place].branches == merged);
    assert forall|name: Seq<char>| has_local(locals, name) implies #[trigger] has_local(
        view.entries,
        name,
    ) by {
        let i = choose|i: int|
            0 <= i < locals.len() && (#[trigger] locals[i]).remote is None && locals[i].name
                == name;
        lemma_local_row_is_entry(view.entries, i);
    }
    assert forall|i: int|
        0 <= i < incoming.len() && !has_local(view.entries, (#[trigger] incoming[i]).name)
            && incoming[i].remote is Some implies is_shown(after.entries, incoming[i].id()) by {
        lemma_grown_holds(known, incoming, incoming[i].id());
        let k = choose|k: int|
            0 <= k < news.len() && (#[trigger] news[k]).id() == incoming[i].id();
        lemma_sorted_contains(news, not_after(rank_branches()), k);
        let m = choose|m: int| 0 <= m < merged.len() && merged[m] == news[k];
        assert(remotes[place].branches[m].name == incoming[i].name);
        lemma_remote_rows_hold(remotes, locals, place, m);
        lemma_row_is_shown(locals, remotes, remotes[place].branches[m]);
    }
    assert forall|i: int|
        0 <= i < known.len() && !has_local(view.entries, (#[trigger] known[i]).name)
            && known[i].remote is Some implies is_shown(after.entries, known[i].id()) by {
        lemma_grown_holds(known, incoming, known[i].id());
        let k = choose|k: int| 0 <= k < news.len() && (#[trigger] news[k]).id() == known[i].id();
        lemma_sorted_contains(news, not_after(rank_branches()), k);
        let m = choose|m: int| 0 <= m < merged.len() && merged[m] == news[k];
        assert(remotes[place].branches[m].name == known[i].name);
        lemma_remote_rows_hold(remotes, locals, place, m);
        lemma_row_is_shown(locals, remotes, remotes[place].branches[m]);
    }
    assert forall|k: int, i: int|
        0 <= k < view.remote_branches.len() && 0 <= i < view.remote_branches[k].branches.len()
            && view.remote_branches[k].remote != remote && !has_local(
            view.entries,
            (#[trigger] view.remote_branches[k].branches[i]).name,
        ) implies is_shown(after.entries, view.remote_branches[k].branches[i].id()) by {
        let there = place < view.remote_branches.len() && view.remote_branches[place].remote
            == remote;
        let at = if there || k < place {
            k
        } else {
            k + 1
        };
        assert(remotes[at] == view.remote_branches[k]);
        lemma_remote_rows_hold(remotes, locals, at, i);
        lemma_row_is_shown(locals, remotes, remotes[at].branches[i]);
    }
}

/// Whether a row shows a branch.
pub open spec fn is_shown(entries: Seq<BranchEntryV>, id: BranchIdV) -> bool {
    exists|i: int| 0 <= i < entries.len() && (#[trigger] entries[i]).id() == id
}

proof fn lemma_row_is_shown(
    locals: Seq<BranchEntryV>,
    remotes: Seq<RemoteBranchesV>,
    branch: BranchEntryV,
)
    requires
        remote_rows(remotes, locals).contains(branch),
    ensures
        is_shown(sorted_branches(locals + remote_rows(remotes, locals)), branch.id()),
{
    let others = remote_rows(remotes, locals);
    let all = locals + others;
    let k = choose|k: int| 0 <= k < others.len() && others[k] == branch;
    assert(all[locals.len() + k] == branch);
    lemma_sorted_contains(all, not_after(rank_branches()), locals.len() + k);
    let sorted = sorted_branches(all);
    let m = choose|m: int| 0 <= m < sorted.len() && sorted[m] == branch;
    assert(sorted[m].id() == branch.id());
}

proof fn lemma_local_row_is_entry(entries: Seq<BranchEntryV>, i: int)
    requires
        0 <= i < local_rows(entries).len(),
    ensures
        has_local(entries, local_rows(entries)[i].name),
    decreases entries.len(),
{
    let rows = local_rows(entries);
    let before = entries.drop_last();
    let inner = local_rows(before);
    if i < inner.len() {
        assert(rows[i] == inner[i]);
        lemma_local_row_is_entry(before, i);
        let k = choose|k: int|
            0 <= k < before.len() && (#[trigger] before[k]).remote is None && before[k].name
                == inner[i].name;
        assert(entries[k] == before[k]);
    } else {
        assert(entries[entries.len() - 1].remote is None);
    }
}

proof fn lemma_without_remote_name_is_choice(entries: Seq<BranchEntryV>, name: Seq<char>)
    ensures
        without_remote_name(entries, name) == entries.filter(
            |entry: BranchEntryV| !(entry.remote is Some && entry.name == name),
        ),
    decreases entries.len(),
{
    lemma_filter_step(
        entries,
        |entry: BranchEntryV| !(entry.remote is Some && entry.name == name),
    );
    if entries.len() > 0 {
        lemma_without_remote_name_is_choice(entries.drop_last(), name);
    }
}

/// Once a remote branch has a local one, the local one is shown and no remote one of its name
/// is; every other row stays.
pub proof fn lemma_local_branch_takes_over(view: BranchViewV, name: Seq<char>)
    ensures
        ({
            let after = view.promoted(name);
            &&& is_shown(after.entries, BranchIdV::Local(name))
            &&& forall|i: int|
                0 <= i < after.entries.len() && (#[trigger] after.entries[i]).remote is Some
                    ==> after.entries[i].name != name
            &&& forall|i: int|
                0 <= i < view.entries.len() && (view.entries[i].remote is None
                    || view.entries[i].name != name) ==> after.entries.contains(
                    #[trigger] view.entries[i],
                )
        }),
{
    let keep = |entry: BranchEntryV| !(entry.remote is Some && entry.name == name);
    lemma_without_remote_name_is_choice(view.entries, name);
    lemma_filter_holds(view.entries, keep);
    let kept = without_remote_name(view.entries, name);
    let all = if has_local(kept, name) {
        kept
    } else {
        kept.push(BranchEntryV::plain(name, None))
    };
    let after = view.promoted(name).entries;
    let le = not_after(rank_branches());
    let places = lemma_sorted_branches(all);
    assert(after == sorted_branches(all));
    if has_local(kept, name) {
        let i = choose|i: int|
            0 <= i < kept.len() && (#[trigger] kept[i]).remote is None && kept[i].name == name;
        lemma_sorted_contains(all, le, i);
        let m = choose|m: int| 0 <= m < after.len() && after[m] == all[i];
        assert(after[m].id() == BranchIdV::Local(name));
    } else {
        lemma_sorted_contains(all, le, all.len() - 1);
        let m = choose|m: int| 0 <= m < after.len() && after[m] == all[all.len() - 1];
        assert(after[m].id() == BranchIdV::Local(name));
    }
    assert forall|i: int|
        0 <= i < after.len() && (#[trigger] after[i]).remote is Some implies after[i].name
        != name by {
        assert(after[i] == all[places[i]]);
        if places[i] < kept.len() {
            assert(keep(kept[places[i]]));
        }
    }
    assert forall|i: int|
        0 <= i < view.entries.len() && (view.entries[i].remote is None || view.entries[i].name
            != name) implies after.contains(#[trigger] view.entries[i]) by {
        assert(keep(view.entries[i]));
        let k = choose|k: int| 0 <= k < kept.len() && kept[k] == view.entries[i];
        assert(all[k] == view.entries[i]);
        lemma_sorted_contains(all, le, k);
    }
}

} // verus!
