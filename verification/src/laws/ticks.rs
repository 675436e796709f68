//! What is done between two events.

use crate::app::{after_branch_changes, after_refresh, after_tick, filter_effects};
use crate::effects::{EffectV, FilterRequestV, RemoteLoadingV, TickChangesV};
use crate::git::scan::has_path;
use crate::git::RepoV;
use crate::laws::removal::{checkouts_known, lemma_resume_repeats_the_record, lemma_resume_takes_every_record_up, takes_up};
use crate::path::{same_path, PathRules};
use crate::screens::delete::after_resume;
use crate::screens::repo;
use crate::state::AppStateV;
use vstd::prelude::*;

verus! {

/// A repository whose branches are stale is loaded anew: as the latest load, whose number is one
/// more than the last.
pub proof fn lemma_stale_branches_are_loaded_anew(
    state: AppStateV,
    repo: RepoV,
    inside_herdr: bool,
)
    requires
        state.branch_view.generation < u64::MAX,
    ensures
        ({
            let (after, effects) = after_refresh(state, Some(repo), inside_herdr);
            let generation = after.branch_view.generation;
            &&& generation == state.branch_view.generation + 1
            &&& effects.contains(
                EffectV::LoadBranches { repo, cwd: state.repo_view.current_cwd, generation },
            )
            &&& inside_herdr <==> effects.contains(
                EffectV::LoadOpenWorktrees { repo_path: repo.path, generation },
            )
            &&& effects.len() <= 2
        }),
        after_refresh(state, None, inside_herdr) == (state, Seq::<EffectV>::empty()),
{
    let (after, effects) = after_refresh(state, Some(repo), inside_herdr);
    assert(effects[0] == EffectV::LoadBranches {
        repo,
        cwd: state.repo_view.current_cwd,
        generation: after.branch_view.generation,
    });
    if inside_herdr {
        assert(effects[1] == EffectV::LoadOpenWorktrees {
            repo_path: repo.path,
            generation: after.branch_view.generation,
        });
    }
}

/// What a tick does one after the other: what it asks for, and the state before the removals are
/// taken up again.
#[verifier::opaque]
spec fn parts(state: AppStateV, changes: TickChangesV, inside_herdr: bool) -> (
    AppStateV,
    Seq<Seq<EffectV>>,
) {
    let (listed, _, repo_request) = repo::after_changes(state, changes)->0;
    let (filtered, branch_request) = after_branch_changes(listed, changes);
    let (refreshed, loads) = after_refresh(filtered, changes.refresh_branch, inside_herdr);
    let removals = if changes.resume_pending_deletes {
        after_resume(refreshed).1
    } else {
        Seq::empty()
    };
    (refreshed, in_turn(changes, repo_request, branch_request, loads, removals))
}

/// Whether an effect is one of a part.
pub open spec fn is_in(parts: Seq<Seq<EffectV>>, effect: EffectV) -> bool {
    exists|i: int| 0 <= i < parts.len() && (#[trigger] parts[i]).contains(effect)
}

proof fn lemma_sum_holds_its_parts(parts: Seq<Seq<EffectV>>, effect: EffectV)
    requires
        parts.len() == 6,
    ensures
        (parts[0] + parts[1] + parts[2] + parts[3] + parts[4] + parts[5]).contains(effect)
            <==> is_in(parts, effect),
{
    let two = parts[0] + parts[1];
    let three = two + parts[2];
    let four = three + parts[3];
    let five = four + parts[4];
    let six = five + parts[5];
    lemma_sum_holds_both(parts[0], parts[1], effect);
    lemma_sum_holds_both(two, parts[2], effect);
    lemma_sum_holds_both(three, parts[3], effect);
    lemma_sum_holds_both(four, parts[4], effect);
    lemma_sum_holds_both(five, parts[5], effect);
    if is_in(parts, effect) {
        let i = choose|i: int| 0 <= i < parts.len() && (#[trigger] parts[i]).contains(effect);
        assert(parts[i].contains(effect));
    }
}

proof fn lemma_sum_holds_both(left: Seq<EffectV>, right: Seq<EffectV>, effect: EffectV)
    ensures
        (left + right).contains(effect) <==> left.contains(effect) || right.contains(effect),
{
    let sum = left + right;
    if left.contains(effect) {
        let i = choose|i: int| 0 <= i < left.len() && left[i] == effect;
        assert(sum[i] == effect);
    }
    if right.contains(effect) {
        let i = choose|i: int| 0 <= i < right.len() && right[i] == effect;
        assert(sum[left.len() + i] == effect);
    }
    if sum.contains(effect) {
        let i = choose|i: int| 0 <= i < sum.len() && sum[i] == effect;
        if i < left.len() {
            assert(left[i] == effect);
        } else {
            assert(right[i - left.len()] == effect);
        }
    }
}

proof fn lemma_tick_does_its_parts(state: AppStateV, changes: TickChangesV, inside_herdr: bool)
    ensures
        after_tick(state, changes, inside_herdr) matches Some(done) ==> {
            let (refreshed, all) = parts(state, changes, inside_herdr);
            &&& all.len() == 6
            &&& done.1 == all[0] + all[1] + all[2] + all[3] + all[4] + all[5]
            &&& done.0 == if changes.resume_pending_deletes {
                after_resume(refreshed).0
            } else {
                refreshed
            }
        },
{
    reveal(parts);
}

/// Which effects the parts of a tick hold.
spec fn sorted_out(
    all: Seq<Seq<EffectV>>,
    changes: TickChangesV,
    cwd: Option<Seq<u8>>,
    generation: u64,
) -> bool {
    &&& all.len() == 6
    &&& all[0] == if changes.save_pending {
        seq![EffectV::SavePending]
    } else {
        Seq::empty()
    }
    &&& forall|effect: EffectV| #[trigger] all[1].contains(effect) ==> effect is Filter
    &&& forall|effect: EffectV| #[trigger] all[2].contains(effect) ==> effect is Filter
    &&& all[3] == match changes.start_remote_loading {
        Some(loading) => seq![EffectV::LoadRemotes(loading)],
        None => Seq::empty(),
    }
    &&& forall|effect: EffectV| #[trigger]
        all[4].contains(effect) ==> effect is LoadBranches || effect is LoadOpenWorktrees
    &&& forall|effect: EffectV|
        effect is LoadBranches ==> (#[trigger] all[4].contains(effect)
            <==> changes.refresh_branch is Some && effect == (EffectV::LoadBranches {
            repo: changes.refresh_branch->0,
            cwd,
            generation,
        }))
    &&& forall|effect: EffectV| #[trigger]
        all[5].contains(effect) ==> effect is RemoveWorktree && changes.resume_pending_deletes
}

proof fn lemma_changes_keep_the_rest(state: AppStateV, changes: TickChangesV)
    ensures
        repo::after_changes(state, changes) matches Some(done) ==> {
            &&& done.0.branch_view == state.branch_view
            &&& done.0.repo_view.current_cwd == state.repo_view.current_cwd
            &&& done.0.repo_view.path_rules == state.repo_view.path_rules
            &&& done.0.mode == state.mode
            &&& done.0.delete == state.delete
        },
{
}

proof fn lemma_filtering_keeps_the_rest(state: AppStateV, changes: TickChangesV)
    ensures
        after_branch_changes(state, changes).0.repo_view == state.repo_view,
        after_branch_changes(state, changes).0.mode == state.mode,
        after_branch_changes(state, changes).0.delete == state.delete,
        after_branch_changes(state, changes).0.branch_view.generation
            == state.branch_view.generation,
        after_branch_changes(state, changes).0.branch_view.loading == state.branch_view.loading,
        after_branch_changes(state, changes).0.branch_view.path_rules
            == state.branch_view.path_rules,
        after_branch_changes(state, changes).0.branch_view.open_worktree_load_state
            == state.branch_view.open_worktree_load_state,
{
}

/// Whether some effects are the loads that were noted.
spec fn are_loads(
    loads: Seq<EffectV>,
    repo: Option<RepoV>,
    cwd: Option<Seq<u8>>,
    generation: u64,
) -> bool {
    &&& forall|effect: EffectV| #[trigger]
        loads.contains(effect) ==> effect is LoadBranches || effect is LoadOpenWorktrees
    &&& forall|effect: EffectV|
        effect is LoadBranches ==> (#[trigger] loads.contains(effect) <==> repo is Some && effect
            == (EffectV::LoadBranches { repo: repo->0, cwd, generation }))
}

proof fn lemma_loads(state: AppStateV, repo: Option<RepoV>, inside_herdr: bool)
    ensures
        are_loads(
            after_refresh(state, repo, inside_herdr).1,
            repo,
            state.repo_view.current_cwd,
            (state.branch_view.generation + 1) as u64,
        ),
{
    let loads = after_refresh(state, repo, inside_herdr).1;
    if repo is Some {
        assert(loads[0] is LoadBranches);
        assert(loads.contains(loads[0]));
    }
}

/// Whether some effects are removals.
spec fn are_removals(effects: Seq<EffectV>) -> bool {
    forall|effect: EffectV| #[trigger] effects.contains(effect) ==> effect is RemoveWorktree
}

proof fn lemma_removals(state: AppStateV)
    ensures
        are_removals(after_resume(state).1),
{
    lemma_resume_repeats_the_record(state);
    let effects = after_resume(state).1;
    assert forall|effect: EffectV| #[trigger] effects.contains(effect) implies effect
        is RemoveWorktree by {
        let i = choose|i: int| 0 <= i < effects.len() && effects[i] == effect;
        assert(effects[i] is RemoveWorktree);
    }
}

spec fn in_turn(
    changes: TickChangesV,
    repo_request: Option<FilterRequestV>,
    branch_request: Option<FilterRequestV>,
    loads: Seq<EffectV>,
    removals: Seq<EffectV>,
) -> Seq<Seq<EffectV>> {
    let saves = if changes.save_pending {
        seq![EffectV::SavePending]
    } else {
        Seq::empty()
    };
    let remotes = match changes.start_remote_loading {
        Some(loading) => seq![EffectV::LoadRemotes(loading)],
        None => Seq::empty(),
    };
    seq![
        saves,
        filter_effects(repo_request),
        filter_effects(branch_request),
        remotes,
        loads,
        removals,
    ]
}

proof fn lemma_in_turn(
    changes: TickChangesV,
    repo_request: Option<FilterRequestV>,
    branch_request: Option<FilterRequestV>,
    loads: Seq<EffectV>,
    removals: Seq<EffectV>,
    cwd: Option<Seq<u8>>,
    generation: u64,
)
    requires
        are_loads(loads, changes.refresh_branch, cwd, generation),
        are_removals(removals),
        !changes.resume_pending_deletes ==> removals.len() == 0,
    ensures
        sorted_out(
            in_turn(changes, repo_request, branch_request, loads, removals),
            changes,
            cwd,
            generation,
        ),
{
}

proof fn lemma_parts_sorted_out(state: AppStateV, changes: TickChangesV, inside_herdr: bool)
    requires
        repo::after_changes(state, changes) is Some,
    ensures
        sorted_out(
            parts(state, changes, inside_herdr).1,
            changes,
            state.repo_view.current_cwd,
            (state.branch_view.generation + 1) as u64,
        ),
{
    reveal(parts);
    let (listed, _, repo_request) = repo::after_changes(state, changes)->0;
    let (filtered, branch_request) = after_branch_changes(listed, changes);
    let (refreshed, loads) = after_refresh(filtered, changes.refresh_branch, inside_herdr);
    let removals = if changes.resume_pending_deletes {
        after_resume(refreshed).1
    } else {
        Seq::empty()
    };
    lemma_changes_keep_the_rest(state, changes);
    lemma_filtering_keeps_the_rest(listed, changes);
    lemma_loads(filtered, changes.refresh_branch, inside_herdr);
    lemma_removals(refreshed);
    lemma_in_turn(
        changes,
        repo_request,
        branch_request,
        loads,
        removals,
        state.repo_view.current_cwd,
        (state.branch_view.generation + 1) as u64,
    );
}

proof fn lemma_sorted_out(
    all: Seq<Seq<EffectV>>,
    changes: TickChangesV,
    cwd: Option<Seq<u8>>,
    generation: u64,
    effect: EffectV,
)
    requires
        sorted_out(all, changes, cwd, generation),
    ensures
        ({
            let held = (all[0] + all[1] + all[2] + all[3] + all[4] + all[5]).contains(effect);
            &&& effect is SavePending ==> (held <==> changes.save_pending)
            &&& effect matches EffectV::LoadRemotes(loading) ==> (held
                <==> changes.start_remote_loading == Some(loading))
            &&& effect is RemoveWorktree && !changes.resume_pending_deletes ==> !held
            &&& effect is LoadBranches ==> (held <==> changes.refresh_branch is Some && effect == (
            EffectV::LoadBranches { repo: changes.refresh_branch->0, cwd, generation }))
        }),
{
    lemma_sum_holds_its_parts(all, effect);
    if changes.save_pending {
        assert(all[0][0] == EffectV::SavePending);
    }
    if changes.start_remote_loading is Some {
        assert(all[3][0] == EffectV::LoadRemotes(changes.start_remote_loading->0));
    }
    assert(all[0].contains(effect) ==> is_in(all, effect));
    assert(all[3].contains(effect) ==> is_in(all, effect));
    assert(all[4].contains(effect) ==> is_in(all, effect));
}

/// What a tick asks for is done: the removals are saved exactly where they changed, and the
/// remotes are loaded exactly where that was due.
pub proof fn lemma_tick_asks_for_what_is_due(
    state: AppStateV,
    changes: TickChangesV,
    inside_herdr: bool,
    loading: RemoteLoadingV,
)
    ensures
        after_tick(state, changes, inside_herdr) matches Some(done) ==> {
            &&& changes.save_pending <==> done.1.contains(EffectV::SavePending)
            &&& changes.start_remote_loading == Some(loading) <==> done.1.contains(
                EffectV::LoadRemotes(loading),
            )
        },
{
    if after_tick(state, changes, inside_herdr) is Some {
        let (_, all) = parts(state, changes, inside_herdr);
        let cwd = state.repo_view.current_cwd;
        let generation = (state.branch_view.generation + 1) as u64;
        lemma_tick_does_its_parts(state, changes, inside_herdr);
        lemma_parts_sorted_out(state, changes, inside_herdr);
        lemma_sorted_out(all, changes, cwd, generation, EffectV::SavePending);
        lemma_sorted_out(all, changes, cwd, generation, EffectV::LoadRemotes(loading));
    }
}

/// A tick takes removals up only where that was noted.
pub proof fn lemma_tick_removes_only_when_noted(
    state: AppStateV,
    changes: TickChangesV,
    inside_herdr: bool,
    effect: EffectV,
)
    requires
        !changes.resume_pending_deletes,
        effect is RemoveWorktree,
    ensures
        after_tick(state, changes, inside_herdr) matches Some(done) ==> !done.1.contains(effect),
{
    if after_tick(state, changes, inside_herdr) is Some {
        let (_, all) = parts(state, changes, inside_herdr);
        let cwd = state.repo_view.current_cwd;
        let generation = (state.branch_view.generation + 1) as u64;
        lemma_tick_does_its_parts(state, changes, inside_herdr);
        lemma_parts_sorted_out(state, changes, inside_herdr);
        lemma_sorted_out(all, changes, cwd, generation, effect);
    }
}

/// A tick loads the branches anew of the repository that was noted, and of no other, as the
/// latest load.
pub proof fn lemma_tick_loads_what_was_noted(
    state: AppStateV,
    changes: TickChangesV,
    inside_herdr: bool,
    effect: EffectV,
)
    requires
        state.branch_view.generation < u64::MAX,
        effect is LoadBranches,
    ensures
        after_tick(state, changes, inside_herdr) matches Some(done) ==> (done.1.contains(effect)
            <==> {
            &&& changes.refresh_branch is Some
            &&& effect->LoadBranches_repo == changes.refresh_branch->0
            &&& effect->LoadBranches_cwd == state.repo_view.current_cwd
            &&& effect->LoadBranches_generation == state.branch_view.generation + 1
        }),
{
    if after_tick(state, changes, inside_herdr) is Some {
        let (_, all) = parts(state, changes, inside_herdr);
        let cwd = state.repo_view.current_cwd;
        let generation = (state.branch_view.generation + 1) as u64;
        lemma_tick_does_its_parts(state, changes, inside_herdr);
        lemma_parts_sorted_out(state, changes, inside_herdr);
        lemma_sorted_out(all, changes, cwd, generation, effect);
    }
}

/// What the removals of a tick go by is as it was before the tick.
spec fn goes_by_the_same(refreshed: AppStateV, state: AppStateV, changes: TickChangesV) -> bool {
    &&& refreshed.mode == state.mode
    &&& refreshed.delete == state.delete
    &&& refreshed.repo_view.path_rules == state.repo_view.path_rules
    &&& changes.refresh_branch is None ==> {
        &&& refreshed.branch_view.generation == state.branch_view.generation
        &&& refreshed.branch_view.loading == state.branch_view.loading
        &&& refreshed.branch_view.path_rules == state.branch_view.path_rules
        &&& refreshed.branch_view.open_worktree_load_state
            == state.branch_view.open_worktree_load_state
    }
}

proof fn lemma_refresh_keeps_the_rest(state: AppStateV, changes: TickChangesV, inside_herdr: bool)
    ensures
        goes_by_the_same(
            after_refresh(state, changes.refresh_branch, inside_herdr).0,
            state,
            changes,
        ),
{
}

proof fn lemma_removals_of_a_tick(state: AppStateV, changes: TickChangesV, inside_herdr: bool)
    requires
        repo::after_changes(state, changes) is Some,
        changes.resume_pending_deletes,
    ensures
        goes_by_the_same(parts(state, changes, inside_herdr).0, state, changes),
        parts(state, changes, inside_herdr).1[5] == after_resume(
            parts(state, changes, inside_herdr).0,
        ).1,
{
    reveal(parts);
    let (listed, _, _) = repo::after_changes(state, changes)->0;
    let (filtered, _) = after_branch_changes(listed, changes);
    lemma_changes_keep_the_rest(state, changes);
    lemma_filtering_keeps_the_rest(listed, changes);
    lemma_refresh_keeps_the_rest(filtered, changes, inside_herdr);
}

proof fn lemma_taken_up(
    refreshed: AppStateV,
    state: AppStateV,
    changes: TickChangesV,
    all: Seq<Seq<EffectV>>,
    effect: EffectV,
)
    requires
        goes_by_the_same(refreshed, state, changes),
        all.len() == 6,
        all[5] == after_resume(refreshed).1,
        all[5].contains(effect),
    ensures
        takes_up(
            effect,
            state.delete.pending,
            state.delete.in_flight,
            state.mode->BranchSelect_0.repo_path,
            state.repo_view.path_rules,
        ),
{
    lemma_resume_repeats_the_record(refreshed);
    let i = choose|i: int| 0 <= i < all[5].len() && all[5][i] == effect;
    assert(after_resume(refreshed).1[i] == effect);
}

proof fn lemma_removal_comes_from_the_record(
    all: Seq<Seq<EffectV>>,
    changes: TickChangesV,
    cwd: Option<Seq<u8>>,
    generation: u64,
    effect: EffectV,
)
    requires
        sorted_out(all, changes, cwd, generation),
        effect is RemoveWorktree,
    ensures
        (all[0] + all[1] + all[2] + all[3] + all[4] + all[5]).contains(effect)
            <==> all[5].contains(effect),
{
    lemma_sum_holds_its_parts(all, effect);
    assert(all[5].contains(effect) ==> is_in(all, effect));
}

/// Every removal that a tick asks for repeats a record of the shown repository.
pub proof fn lemma_tick_removes_what_is_on_record(
    state: AppStateV,
    changes: TickChangesV,
    inside_herdr: bool,
    effect: EffectV,
)
    requires
        changes.resume_pending_deletes,
        effect is RemoveWorktree,
    ensures
        after_tick(state, changes, inside_herdr) matches Some(done) ==> done.1.contains(effect)
            ==> takes_up(
            effect,
            state.delete.pending,
            state.delete.in_flight,
            state.mode->BranchSelect_0.repo_path,
            state.repo_view.path_rules,
        ),
{
    if after_tick(state, changes, inside_herdr) is Some {
        let (refreshed, all) = parts(state, changes, inside_herdr);
        let cwd = state.repo_view.current_cwd;
        let generation = (state.branch_view.generation + 1) as u64;
        lemma_tick_does_its_parts(state, changes, inside_herdr);
        lemma_parts_sorted_out(state, changes, inside_herdr);
        lemma_removals_of_a_tick(state, changes, inside_herdr);
        lemma_removal_comes_from_the_record(all, changes, cwd, generation, effect);
        if all[5].contains(effect) {
            lemma_taken_up(refreshed, state, changes, all, effect);
        }
    }
}

/// Whether a removal of a checkout is asked for.
pub open spec fn removes(effects: Seq<EffectV>, worktree_path: Seq<u8>, rules: PathRules) -> bool {
    exists|effect: EffectV| #[trigger]
        effects.contains(effect) && effect is RemoveWorktree && same_path(
            effect->RemoveWorktree_worktree_path,
            worktree_path,
            rules,
        )
}

/// Whether a record waits to be taken up: it is one of the shown repository, whose branches and
/// open checkouts are known, and its checkout is not being removed.
pub open spec fn waits(state: AppStateV, k: int) -> bool {
    &&& state.mode is BranchSelect
    &&& !state.branch_view.loading
    &&& checkouts_known(state.branch_view, state.mode->BranchSelect_0.repo_path)
    &&& 0 <= k < state.delete.pending.len()
    &&& same_path(
        state.delete.pending[k].repo_path,
        state.mode->BranchSelect_0.repo_path,
        state.repo_view.path_rules,
    )
    &&& !has_path(
        state.delete.in_flight,
        state.delete.pending[k].worktree_path,
        state.repo_view.path_rules,
    )
}

proof fn lemma_record_is_taken_up(
    refreshed: AppStateV,
    state: AppStateV,
    changes: TickChangesV,
    all: Seq<Seq<EffectV>>,
    k: int,
)
    requires
        goes_by_the_same(refreshed, state, changes),
        changes.refresh_branch is None,
        all.len() == 6,
        all[5] == after_resume(refreshed).1,
        waits(state, k),
    ensures
        removes(all[5], state.delete.pending[k].worktree_path, state.repo_view.path_rules),
{
    lemma_resume_takes_every_record_up(refreshed, k);
    lemma_removals(refreshed);
    let effects = after_resume(refreshed).1;
    let i = choose|i: int|
        0 <= i < effects.len() && same_path(
            (#[trigger] effects[i])->RemoveWorktree_worktree_path,
            state.delete.pending[k].worktree_path,
            state.repo_view.path_rules,
        );
    assert(effects.contains(effects[i]));
}

proof fn lemma_removal_is_in_the_sum(
    all: Seq<Seq<EffectV>>,
    worktree_path: Seq<u8>,
    rules: PathRules,
)
    requires
        all.len() == 6,
        removes(all[5], worktree_path, rules),
    ensures
        removes(all[0] + all[1] + all[2] + all[3] + all[4] + all[5], worktree_path, rules),
{
    let effect = choose|effect: EffectV| #[trigger]
        all[5].contains(effect) && effect is RemoveWorktree && same_path(
            effect->RemoveWorktree_worktree_path,
            worktree_path,
            rules,
        );
    lemma_sum_holds_its_parts(all, effect);
    assert(is_in(all, effect));
}

/// A tick that is to take removals up takes up every record that waits.
pub proof fn lemma_tick_takes_every_record_up(
    state: AppStateV,
    changes: TickChangesV,
    inside_herdr: bool,
    k: int,
)
    requires
        changes.resume_pending_deletes,
        changes.refresh_branch is None,
        waits(state, k),
    ensures
        after_tick(state, changes, inside_herdr) matches Some(done) ==> removes(
            done.1,
            state.delete.pending[k].worktree_path,
            state.repo_view.path_rules,
        ),
{
    if after_tick(state, changes, inside_herdr) is Some {
        let (refreshed, all) = parts(state, changes, inside_herdr);
        lemma_tick_does_its_parts(state, changes, inside_herdr);
        lemma_removals_of_a_tick(state, changes, inside_herdr);
        lemma_record_is_taken_up(refreshed, state, changes, all, k);
        lemma_removal_is_in_the_sum(
            all,
            state.delete.pending[k].worktree_path,
            state.repo_view.path_rules,
        );
    }
}

} // verus!
