//! Removing checkouts.

use crate::branches::BranchEntryV;
use crate::effects::{EffectV, TickChangesV};
use crate::event::{AppEvent, WorktreeRemovalOutcome, WorktreeRemovalOutcomeV};
use crate::git::scan::has_path;
use crate::git::{GitError, WorktreeV};
use crate::herdr::{HerdrError, WorktreeInfoV, WorktreeListResponse, WorktreeRemoveResponse};
use crate::laws::lists::{highlights, lemma_filter_step};
use crate::path::{same_path, same_place, PathBuf, PathRules};
use crate::pending_delete::{cleared, is_removal_of, marked, still_pending, without_branch, PendingWorktreeDeleteV, TTL_SECS};
use crate::rows::{first_place, lemma_first_place};
use crate::screens::branch::{BranchContextV, BranchViewV, OpenWorktreeLoadStateV};
use crate::screens::delete::{after_begin, after_cancel, after_confirm, after_event, after_resume, after_saved, branch_at, open_state_known, reconciled, resumed, target_of, without_checkout, without_path, DeleteFlowV, DeleteWorktreeTargetV};
use crate::screens::repo::paths_of;
use crate::spawn::{awaits, checkout_at, next_step, CallV, FinishedV, NextV, OperationV, RemovalV, Reply};
use crate::state::{AppStateV, ModeV};
use crate::toasts::ToastKind;
use vstd::prelude::*;
use vstd::string::*;
use vstd::utf8::encode_utf8;

verus! {

/// Whether the open checkouts of a repository were listed for this visit of its branches.
pub open spec fn checkouts_known(view: BranchViewV, repo_path: Seq<u8>) -> bool {
    view.open_worktree_load_state matches OpenWorktreeLoadStateV::Loaded {
        repo_path: listed,
        generation,
    } && same_path(listed, repo_path, view.path_rules) && generation == view.generation
}

/// Whether an effect repeats a removal that is on record, in all that the record says.
pub open spec fn repeats(effect: EffectV, record: PendingWorktreeDeleteV) -> bool {
    effect matches EffectV::RemoveWorktree { branch_name, worktree_path, force, .. } && branch_name
        == record.branch_name && worktree_path == record.worktree_path && force == record.force
}

proof fn lemma_resumed(
    pending: Seq<PendingWorktreeDeleteV>,
    repo_path: Seq<u8>,
    in_flight: Seq<Seq<u8>>,
    rules: PathRules,
)
    ensures
        ({
            let (running, effects) = resumed(pending, repo_path, in_flight, rules);
            &&& forall|i: int|
                0 <= i < effects.len() ==> takes_up(
                    #[trigger] effects[i],
                    pending,
                    in_flight,
                    repo_path,
                    rules,
                )
            &&& forall|path: Seq<u8>|
                has_path(in_flight, path, rules) ==> #[trigger] has_path(running, path, rules)
            &&& forall|path: Seq<u8>| #[trigger]
                has_path(running, path, rules) ==> has_path(in_flight, path, rules) || exists|
                    i: int,
                |
                    0 <= i < effects.len() && same_path(
                        (#[trigger] effects[i])->RemoveWorktree_worktree_path,
                        path,
                        rules,
                    )
            &&& forall|k: int|
                0 <= k < pending.len() && same_path(pending[k].repo_path, repo_path, rules)
                    ==> has_path(running, (#[trigger] pending[k]).worktree_path, rules)
        }),
    decreases pending.len(),
{
    if pending.len() > 0 {
        let before = pending.drop_last();
        let last = pending.last();
        lemma_resumed(before, repo_path, in_flight, rules);
        let (ran, asked) = resumed(before, repo_path, in_flight, rules);
        let (running, effects) = resumed(pending, repo_path, in_flight, rules);
        assert forall|i: int| 0 <= i < effects.len() implies takes_up(
            #[trigger] effects[i],
            pending,
            in_flight,
            repo_path,
            rules,
        ) by {
            if i < asked.len() {
                assert(effects[i] == asked[i]);
                assert(takes_up(asked[i], before, in_flight, repo_path, rules));
                let k = choose|k: int|
                    0 <= k < before.len() && repeats(asked[i], #[trigger] before[k]) && same_path(
                        before[k].repo_path,
                        repo_path,
                        rules,
                    ) && !has_path(in_flight, before[k].worktree_path, rules);
                assert(pending[k] == before[k]);
            } else {
                assert(repeats(effects[i], pending[pending.len() - 1]));
            }
        }
        assert forall|path: Seq<u8>| has_path(ran, path, rules) implies #[trigger] has_path(
            running,
            path,
            rules,
        ) by {
            let i = choose|i: int|
                0 <= i < ran.len() && same_path(#[trigger] ran[i], path, rules);
            assert(running[i] == ran[i]);
        }
        assert forall|path: Seq<u8>| #[trigger] has_path(running, path, rules) implies has_path(
            in_flight,
            path,
            rules,
        ) || exists|i: int|
            0 <= i < effects.len() && same_path(
                (#[trigger] effects[i])->RemoveWorktree_worktree_path,
                path,
                rules,
            ) by {
            if has_path(ran, path, rules) && !has_path(in_flight, path, rules) {
                let i = choose|i: int|
                    0 <= i < asked.len() && same_path(
                        (#[trigger] asked[i])->RemoveWorktree_worktree_path,
                        path,
                        rules,
                    );
                assert(effects[i] == asked[i]);
            } else if !has_path(ran, path, rules) {
                let i = choose|i: int|
                    0 <= i < running.len() && same_path(#[trigger] running[i], path, rules);
                if i < ran.len() {
                    assert(running[i] == ran[i]);
                    assert(false);
                }
                assert(effects[effects.len() - 1]->RemoveWorktree_worktree_path == running[i]);
            }
        }
        assert forall|k: int|
            0 <= k < pending.len() && same_path(pending[k].repo_path, repo_path, rules) implies has_path(
            running,
            (#[trigger] pending[k]).worktree_path,
            rules,
        ) by {
            if k < before.len() {
                assert(before[k] == pending[k]);
                assert(has_path(ran, before[k].worktree_path, rules));
            } else if !has_path(ran, last.worktree_path, rules) {
                assert(running[running.len() - 1] == last.worktree_path);
            }
        }
    }
}

/// Whether a request takes up one of some records: a record of the repository, of a checkout
/// that is not being removed, in all that it says.
pub open spec fn takes_up(
    effect: EffectV,
    pending: Seq<PendingWorktreeDeleteV>,
    in_flight: Seq<Seq<u8>>,
    repo_path: Seq<u8>,
    rules: PathRules,
) -> bool {
    &&& effect is RemoveWorktree
    &&& effect->RemoveWorktree_repo_path == repo_path
    &&& exists|k: int|
        0 <= k < pending.len() && repeats(effect, #[trigger] pending[k]) && same_path(
            pending[k].repo_path,
            repo_path,
            rules,
        ) && !has_path(in_flight, pending[k].worktree_path, rules)
}

/// Taking removals up again asks for what is on record and nothing else: each request repeats a
/// record of the shown repository, with force only where the record has force, and of a checkout
/// that is not being removed already. Nothing but what runs changes, and nothing is asked for
/// before the branches and the open checkouts are known.
pub proof fn lemma_resume_repeats_the_record(state: AppStateV)
    ensures
        ({
            let (after, effects) = after_resume(state);
            &&& after.delete.pending == state.delete.pending
            &&& after.mode == state.mode
            &&& after.branch_view == state.branch_view
            &&& after.repo_view == state.repo_view
            &&& after.toasts == state.toasts
            &&& state.mode is BranchSelect && !state.branch_view.loading && checkouts_known(
                state.branch_view,
                state.mode->BranchSelect_0.repo_path,
            ) || (effects.len() == 0 && after == state)
            &&& forall|i: int|
                0 <= i < effects.len() ==> takes_up(
                    #[trigger] effects[i],
                    state.delete.pending,
                    state.delete.in_flight,
                    state.mode->BranchSelect_0.repo_path,
                    state.repo_view.path_rules,
                )
        }),
{
    match state.mode {
        ModeV::BranchSelect(context) => {
            lemma_resumed(
                state.delete.pending,
                context.repo_path,
                state.delete.in_flight,
                state.repo_view.path_rules,
            );
        },
        _ => {},
    }
}

/// Once the branches and the open checkouts of a repository are known, every record of it whose
/// checkout is not being removed is taken up, and counts as running.
pub proof fn lemma_resume_takes_every_record_up(state: AppStateV, k: int)
    requires
        state.mode is BranchSelect,
        !state.branch_view.loading,
        checkouts_known(state.branch_view, state.mode->BranchSelect_0.repo_path),
        0 <= k < state.delete.pending.len(),
        same_path(
            state.delete.pending[k].repo_path,
            state.mode->BranchSelect_0.repo_path,
            state.repo_view.path_rules,
        ),
        !has_path(
            state.delete.in_flight,
            state.delete.pending[k].worktree_path,
            state.repo_view.path_rules,
        ),
    ensures
        exists|i: int|
            0 <= i < after_resume(state).1.len() && same_path(
                (#[trigger] after_resume(state).1[i])->RemoveWorktree_worktree_path,
                state.delete.pending[k].worktree_path,
                state.repo_view.path_rules,
            ),
        has_path(
            after_resume(state).0.delete.in_flight,
            state.delete.pending[k].worktree_path,
            state.repo_view.path_rules,
        ),
{
    let rules = state.repo_view.path_rules;
    let repo_path = state.mode->BranchSelect_0.repo_path;
    let path = state.delete.pending[k].worktree_path;
    lemma_resumed(state.delete.pending, repo_path, state.delete.in_flight, rules);
    let (running, effects) = resumed(
        state.delete.pending,
        repo_path,
        state.delete.in_flight,
        rules,
    );
    assert(has_path(running, path, rules));
    assert(after_resume(state).1 == effects);
}

/// A checkout whose removal was never forced is never removed with force when the removals are
/// taken up again.
pub proof fn lemma_resume_forces_nothing_new(state: AppStateV, i: int)
    requires
        forall|k: int|
            0 <= k < state.delete.pending.len() ==> !(#[trigger] state.delete.pending[k]).force,
        0 <= i < after_resume(state).1.len(),
    ensures
        after_resume(state).1[i] matches EffectV::RemoveWorktree { force, .. } && !force,
{
    lemma_resume_repeats_the_record(state);
}

proof fn lemma_cleared_is_choice(
    entries: Seq<PendingWorktreeDeleteV>,
    path: Seq<u8>,
    rules: PathRules,
)
    ensures
        cleared(entries, path, rules) == entries.filter(
            |entry: PendingWorktreeDeleteV| !same_path(entry.worktree_path, path, rules),
        ),
    decreases entries.len(),
{
    lemma_filter_step(
        entries,
        |entry: PendingWorktreeDeleteV| !same_path(entry.worktree_path, path, rules),
    );
    if entries.len() > 0 {
        lemma_cleared_is_choice(entries.drop_last(), path, rules);
    }
}

/// Clearing a removal takes the records of its checkout away, and no others.
pub proof fn lemma_clearing_takes_one_checkout(
    entries: Seq<PendingWorktreeDeleteV>,
    path: Seq<u8>,
    rules: PathRules,
)
    ensures
        cleared(entries, path, rules) == entries.filter(
            |entry: PendingWorktreeDeleteV| !same_path(entry.worktree_path, path, rules),
        ),
{
    lemma_cleared_is_choice(entries, path, rules);
}

proof fn lemma_without_branch_is_choice(
    entries: Seq<PendingWorktreeDeleteV>,
    repo_path: Seq<u8>,
    branch_name: Seq<char>,
    rules: PathRules,
)
    ensures
        without_branch(entries, repo_path, branch_name, rules) == entries.filter(
            |entry: PendingWorktreeDeleteV|
                !(same_path(entry.repo_path, repo_path, rules) && entry.branch_name == branch_name),
        ),
    decreases entries.len(),
{
    lemma_filter_step(
        entries,
        |entry: PendingWorktreeDeleteV|
            !(same_path(entry.repo_path, repo_path, rules) && entry.branch_name == branch_name),
    );
    if entries.len() > 0 {
        lemma_without_branch_is_choice(entries.drop_last(), repo_path, branch_name, rules);
    }
}

/// Recording a removal replaces an earlier record of its branch and leaves all others.
pub proof fn lemma_record_replaces_its_branch(
    entries: Seq<PendingWorktreeDeleteV>,
    added: PendingWorktreeDeleteV,
    rules: PathRules,
)
    ensures
        marked(entries, added, rules) == entries.filter(
            |entry: PendingWorktreeDeleteV|
                !(same_path(entry.repo_path, added.repo_path, rules) && entry.branch_name
                    == added.branch_name),
        ).push(added),
{
    lemma_without_branch_is_choice(entries, added.repo_path, added.branch_name, rules);
}

/// Of saved removals those are kept that were started no longer ago than they last.
pub proof fn lemma_old_records_are_dropped(entries: Seq<PendingWorktreeDeleteV>, now: u64)
    ensures
        still_pending(entries, now) == entries.filter(
            |entry: PendingWorktreeDeleteV| now <= entry.started_at_unix_secs + TTL_SECS,
        ),
    decreases entries.len(),
{
    lemma_filter_step(
        entries,
        |entry: PendingWorktreeDeleteV| now <= entry.started_at_unix_secs + TTL_SECS,
    );
    if entries.len() > 0 {
        lemma_old_records_are_dropped(entries.drop_last(), now);
    }
}

/// Once the checkouts of a repository are known, its records are kept where the checkout is
/// still there and the removal is not too old; records of other repositories are left alone.
pub proof fn lemma_records_follow_the_checkouts(
    pending: Seq<PendingWorktreeDeleteV>,
    repo_path: Seq<u8>,
    checkouts: Seq<Seq<u8>>,
    now: u64,
    rules: PathRules,
)
    ensures
        reconciled(pending, repo_path, checkouts, now, rules) == pending.filter(
            |entry: PendingWorktreeDeleteV|
                same_path(entry.repo_path, repo_path, rules) ==> now <= entry.started_at_unix_secs
                    + TTL_SECS && exists|i: int|
                    0 <= i < checkouts.len() && same_path(
                        #[trigger] checkouts[i],
                        entry.worktree_path,
                        rules,
                    ),
        ),
    decreases pending.len(),
{
    lemma_filter_step(
        pending,
        |entry: PendingWorktreeDeleteV|
            same_path(entry.repo_path, repo_path, rules) ==> now <= entry.started_at_unix_secs
                + TTL_SECS && exists|i: int|
                0 <= i < checkouts.len() && same_path(
                    #[trigger] checkouts[i],
                    entry.worktree_path,
                    rules,
                ),
    );
    if pending.len() > 0 {
        lemma_records_follow_the_checkouts(pending.drop_last(), repo_path, checkouts, now, rules);
    }
}

/// The question asks about the checkout of the highlighted branch, without force: a local branch
/// with a checkout that is not the main one, is not being removed, and of which it is known
/// whether it is open. Every such checkout can be asked about; anything else is an error.
pub proof fn lemma_question_is_about_the_highlighted_branch(
    state: AppStateV,
    context: BranchContextV,
    item: int,
    canonical_checkout: Option<Seq<u8>>,
    canonical_repo: Option<Seq<u8>>,
)
    requires
        state.mode == ModeV::BranchSelect(context),
        0 <= item < state.branch_view.entries.len(),
        highlights(state.branch_view.list, item),
    ensures
        ({
            let after = after_begin(state, canonical_checkout, canonical_repo);
            let branch = state.branch_view.entries[item];
            let rules = state.repo_view.path_rules;
            let checkout = match canonical_checkout {
                Some(path) => path,
                None => branch.worktree_path->0,
            };
            let repo = match canonical_repo {
                Some(path) => path,
                None => context.repo_path,
            };
            let removable = {
                &&& branch.remote is None
                &&& branch.worktree_path is Some
                &&& !same_place(checkout, repo, state.branch_view.path_rules)
                &&& !has_path(state.delete.in_flight, branch.worktree_path->0, rules)
                &&& forall|k: int|
                    0 <= k < state.delete.pending.len() ==> !(same_path(
                        (#[trigger] state.delete.pending[k]).repo_path,
                        context.repo_path,
                        rules,
                    ) && state.delete.pending[k].branch_name == branch.name)
                &&& checkouts_known(state.branch_view, context.repo_path)
            };
            &&& removable ==> after == (AppStateV {
                mode: ModeV::ConfirmWorktreeDelete(
                    DeleteFlowV {
                        context,
                        target: DeleteWorktreeTargetV {
                            branch_name: branch.name,
                            worktree_path: branch.worktree_path->0,
                            open_workspace_id: branch.open_workspace_id,
                            force: false,
                            in_progress: false,
                        },
                    },
                ),
                ..state
            })
            &&& !removable ==> after.mode == state.mode && exists|message: Seq<char>|
                after == #[trigger] state.told(ToastKind::Error, message)
        }),
{
    let branch = state.branch_view.entries[item];
    let rules = state.repo_view.path_rules;
    let started = exists|i: int|
        0 <= i < state.delete.pending.len() && is_removal_of(
            #[trigger] state.delete.pending[i],
            context.repo_path,
            branch.name,
            rules,
        );
    if started {
        let i = choose|i: int|
            0 <= i < state.delete.pending.len() && is_removal_of(
                #[trigger] state.delete.pending[i],
                context.repo_path,
                branch.name,
                rules,
            );
        assert(same_path(state.delete.pending[i].repo_path, context.repo_path, rules));
    } else {
        assert forall|k: int| 0 <= k < state.delete.pending.len() implies !(same_path(
            (#[trigger] state.delete.pending[k]).repo_path,
            context.repo_path,
            rules,
        ) && state.delete.pending[k].branch_name == branch.name) by {
            assert(!is_removal_of(
                state.delete.pending[k],
                context.repo_path,
                branch.name,
                rules,
            ));
        }
    }
    let target = target_of(state, canonical_checkout, canonical_repo);
    if target is Err {
        assert(after_begin(state, canonical_checkout, canonical_repo) == state.told(
            ToastKind::Error,
            target->Err_0,
        ));
    }
}

/// Agreeing records exactly the removal that was asked about, with its force; nothing is
/// removed yet. It is refused where it is not known whether the checkout is open, or where no
/// branch has it any more.
pub proof fn lemma_agreement_records_the_question(state: AppStateV, flow: DeleteFlowV, now: u64)
    requires
        state.mode == ModeV::ConfirmWorktreeDelete(flow),
    ensures
        ({
            let (after, effect) = after_confirm(state, now);
            let rules = state.repo_view.path_rules;
            let listed = exists|i: int|
                0 <= i < state.branch_view.entries.len() && (
                #[trigger] state.branch_view.entries[i]).name == flow.target.branch_name
                    && state.branch_view.entries[i].worktree_path is Some && same_path(
                    state.branch_view.entries[i].worktree_path->0,
                    flow.target.worktree_path,
                    rules,
                );
            let agreed = !flow.target.in_progress && checkouts_known(
                state.branch_view,
                flow.context.repo_path,
            ) && listed;
            let record = PendingWorktreeDeleteV {
                repo_path: flow.context.repo_path,
                branch_name: flow.target.branch_name,
                worktree_path: flow.target.worktree_path,
                force: flow.target.force,
                started_at_unix_secs: now,
            };
            &&& agreed ==> effect == Some(EffectV::SavePendingThenRemove)
                && after.delete.pending.len() > 0 && after.delete.pending.last() == record
                && after.delete.in_flight == state.delete.in_flight && (after.mode matches
                ModeV::ConfirmWorktreeDelete(asked) && asked.context == flow.context
                && asked.target.branch_name == flow.target.branch_name
                && asked.target.worktree_path == flow.target.worktree_path && asked.target.force
                == flow.target.force && !asked.target.in_progress)
            &&& !agreed ==> effect is None && after.delete == state.delete && after.mode
                == state.mode
            &&& !agreed && !flow.target.in_progress ==> exists|message: Seq<char>|
                after == #[trigger] state.told(ToastKind::Error, message)
        }),
{
    let rules = state.repo_view.path_rules;
    let entries = state.branch_view.entries;
    lemma_branch_at(entries, flow.target.branch_name, flow.target.worktree_path, rules);
    let (after, effect) = after_confirm(state, now);
    if effect is None && !flow.target.in_progress {
        if !open_state_known(state.branch_view, flow.context.repo_path) {
            let message = if state.branch_view.open_worktree_load_state is Failed {
                "Cannot delete checkout because open checkout state could not be loaded"@
            } else {
                "Open checkout state is stale or still loading; deletion was not started"@
            };
            assert(after == state.told(ToastKind::Error, message));
        } else {
            assert(after == state.told(
                ToastKind::Error,
                "Checkout state changed; cancel deletion and try again"@,
            ));
        }
    }
}

proof fn lemma_branch_at(
    entries: Seq<BranchEntryV>,
    name: Seq<char>,
    path: Seq<u8>,
    rules: PathRules,
)
    ensures
        branch_at(entries, name, path, rules) is Some <==> exists|i: int|
            0 <= i < entries.len() && (#[trigger] entries[i]).name == name
                && entries[i].worktree_path is Some && same_path(
                entries[i].worktree_path->0,
                path,
                rules,
            ),
    decreases entries.len(),
{
    if entries.len() > 0 {
        let rest = entries.drop_first();
        lemma_branch_at(rest, name, path, rules);
        let here = entries[0].name == name && entries[0].worktree_path is Some && same_path(
            entries[0].worktree_path->0,
            path,
            rules,
        );
        if !here {
            if branch_at(rest, name, path, rules) is Some {
                let i = choose|i: int|
                    0 <= i < rest.len() && (#[trigger] rest[i]).name == name
                        && rest[i].worktree_path is Some && same_path(
                        rest[i].worktree_path->0,
                        path,
                        rules,
                    );
                assert(entries[i + 1] == rest[i]);
            } else {
                assert forall|i: int| 0 <= i < entries.len() implies !((
                #[trigger] entries[i]).name == name && entries[i].worktree_path is Some
                    && same_path(entries[i].worktree_path->0, path, rules)) by {
                    if i > 0 {
                        assert(rest[i - 1] == entries[i]);
                    }
                }
            }
        } else {
            assert(entries[0].name == name);
        }
    }
}

/// Once the record is saved, exactly the removal that was asked about starts, with force only
/// where the question was about force, and it counts as running. Where saving failed nothing
/// starts, the record is gone, and the error is told.
pub proof fn lemma_removal_starts_as_it_was_asked(
    state: AppStateV,
    flow: DeleteFlowV,
    error: Option<Seq<char>>,
)
    requires
        state.mode == ModeV::ConfirmWorktreeDelete(flow),
    ensures
        ({
            let (after, effect) = after_saved(state, error);
            let rules = state.repo_view.path_rules;
            match error {
                None => {
                    &&& effect == Some(
                        EffectV::RemoveWorktree {
                            repo_path: flow.context.repo_path,
                            branch_name: flow.target.branch_name,
                            worktree_path: flow.target.worktree_path,
                            force: flow.target.force,
                        },
                    )
                    &&& has_path(after.delete.in_flight, flow.target.worktree_path, rules)
                    &&& forall|path: Seq<u8>|
                        has_path(state.delete.in_flight, path, rules) ==> #[trigger] has_path(
                            after.delete.in_flight,
                            path,
                            rules,
                        )
                    &&& after.delete.pending == state.delete.pending
                    &&& after.mode matches ModeV::ConfirmWorktreeDelete(running)
                        && running.target.in_progress && running.context == flow.context
                        && running.target.branch_name == flow.target.branch_name
                        && running.target.worktree_path == flow.target.worktree_path
                        && running.target.force == flow.target.force
                },
                Some(problem) => {
                    &&& effect is None
                    &&& after.mode == state.mode
                    &&& after.delete.in_flight == state.delete.in_flight
                    &&& after.delete.pending == state.delete.pending.filter(
                        |entry: PendingWorktreeDeleteV|
                            !same_path(entry.worktree_path, flow.target.worktree_path, rules),
                    )
                    &&& after.toasts == state.told(
                        ToastKind::Error,
                        "Could not persist pending deletion: "@ + problem,
                    ).toasts
                },
            }
        }),
{
    let rules = state.repo_view.path_rules;
    let path = flow.target.worktree_path;
    lemma_cleared_is_choice(state.delete.pending, path, rules);
    let after = after_saved(state, error).0;
    if error is None {
        let (old_paths, paths) = (state.delete.in_flight, after.delete.in_flight);
        if !has_path(old_paths, path, rules) {
            assert(paths[old_paths.len() as int] == path);
            assert(has_path(paths, path, rules));
        }
        assert forall|other: Seq<u8>| has_path(old_paths, other, rules) implies #[trigger] has_path(
            paths,
            other,
            rules,
        ) by {
            let i = choose|i: int|
                0 <= i < old_paths.len() && same_path(#[trigger] old_paths[i], other, rules);
            assert(paths[i] == old_paths[i]);
        }
    }
}

/// Declining brings the branches back and starts nothing; a record is only given up where the
/// question was about force, and then it is saved. A removal that runs goes on.
pub proof fn lemma_declining_removes_nothing(state: AppStateV, flow: DeleteFlowV)
    requires
        state.mode == ModeV::ConfirmWorktreeDelete(flow),
    ensures
        ({
            let (after, asked, effect) = after_cancel(state);
            let rules = state.repo_view.path_rules;
            &&& asked
            &&& after.delete.in_flight == state.delete.in_flight
            &&& !(effect matches Some(EffectV::RemoveWorktree { .. }))
            &&& flow.target.in_progress ==> after == state && effect is None
            &&& !flow.target.in_progress ==> after.mode == ModeV::BranchSelect(flow.context)
            &&& !flow.target.in_progress && !flow.target.force ==> effect is None && after.delete
                == state.delete
            &&& !flow.target.in_progress && flow.target.force ==> effect == Some(
                EffectV::SavePending,
            ) && after.delete.pending == state.delete.pending.filter(
                |entry: PendingWorktreeDeleteV|
                    !same_path(entry.worktree_path, flow.target.worktree_path, rules),
            )
        }),
{
    lemma_cleared_is_choice(
        state.delete.pending,
        flow.target.worktree_path,
        state.repo_view.path_rules,
    );
}

/// Whether the end of a removal is awaited: the checkout is being removed, or the question on
/// the screen is about that removal and it runs.
pub open spec fn is_awaited(
    state: AppStateV,
    repo_path: Seq<u8>,
    branch_name: Seq<char>,
    worktree_path: Seq<u8>,
) -> bool {
    has_path(state.delete.in_flight, worktree_path, state.repo_view.path_rules) || is_asked(
        state,
        repo_path,
        branch_name,
        worktree_path,
    )
}

/// Whether the question on the screen is about a removal, and it runs.
pub open spec fn is_asked(
    state: AppStateV,
    repo_path: Seq<u8>,
    branch_name: Seq<char>,
    worktree_path: Seq<u8>,
) -> bool {
    let rules = state.repo_view.path_rules;
    state.mode matches ModeV::ConfirmWorktreeDelete(flow) && flow.target.in_progress
        && flow.target.branch_name == branch_name && same_path(
        flow.context.repo_path,
        repo_path,
        rules,
    ) && same_path(flow.target.worktree_path, worktree_path, rules)
}

proof fn lemma_without_path_is_choice(paths: Seq<Seq<u8>>, path: Seq<u8>, rules: PathRules)
    ensures
        without_path(paths, path, rules) == paths.filter(
            |other: Seq<u8>| !same_path(other, path, rules),
        ),
    decreases paths.len(),
{
    lemma_filter_step(paths, |other: Seq<u8>| !same_path(other, path, rules));
    if paths.len() > 0 {
        lemma_without_path_is_choice(paths.drop_last(), path, rules);
    }
}

/// The end of a removal is taken in where it is awaited, and only there: the checkout no longer
/// counts as being removed, and all others still do. Its record is given up and saved, unless
/// force has to be asked for, where everything stays on record.
pub proof fn lemma_end_of_removal_clears_its_record(
    event: AppEvent,
    state: AppStateV,
    changes: TickChangesV,
    repo_path: Seq<u8>,
    branch_name: Seq<char>,
    worktree_path: Seq<u8>,
)
    requires
        event matches AppEvent::WorktreeRemovalFinished {
            repo_path: of_repo,
            branch_name: of_branch,
            worktree_path: of_worktree,
            ..
        } && of_repo@ == repo_path && of_branch@ == branch_name && of_worktree@ == worktree_path,
    ensures
        after_event(event, state, changes) is Some <==> is_awaited(
            state,
            repo_path,
            branch_name,
            worktree_path,
        ),
        after_event(event, state, changes) is Some ==> {
            let (after, changed) = after_event(event, state, changes)->0;
            let rules = state.repo_view.path_rules;
            let dirty = event->outcome is DirtyRequiresForce;
            &&& after.delete.in_flight == state.delete.in_flight.filter(
                |other: Seq<u8>| !same_path(other, worktree_path, rules),
            )
            &&& dirty ==> after.delete.pending == state.delete.pending && changed == changes
            &&& !dirty ==> changed.save_pending && after.delete.pending
                == state.delete.pending.filter(
                |entry: PendingWorktreeDeleteV|
                    !same_path(entry.worktree_path, worktree_path, rules),
            )
        },
{
    let rules = state.repo_view.path_rules;
    lemma_without_path_is_choice(state.delete.in_flight, worktree_path, rules);
    lemma_cleared_is_choice(state.delete.pending, worktree_path, rules);
}

/// A checkout with changes is asked about again, now with force: the question is about the same
/// branch and checkout, nothing runs, and nothing else on the screen changes. Elsewhere than on
/// the branches of its repository no question comes up.
pub proof fn lemma_changes_ask_for_force(
    event: AppEvent,
    state: AppStateV,
    changes: TickChangesV,
    repo_path: Seq<u8>,
    branch_name: Seq<char>,
    worktree_path: Seq<u8>,
)
    requires
        event matches AppEvent::WorktreeRemovalFinished {
            repo_path: of_repo,
            branch_name: of_branch,
            worktree_path: of_worktree,
            outcome,
        } && of_repo@ == repo_path && of_branch@ == branch_name && of_worktree@ == worktree_path
            && outcome is DirtyRequiresForce,
        is_awaited(state, repo_path, branch_name, worktree_path),
    ensures
        ({
            let (after, _) = after_event(event, state, changes)->0;
            let rules = state.repo_view.path_rules;
            &&& after.toasts == state.toasts
            &&& after.repo_view == state.repo_view
            &&& after.branch_view == state.branch_view
            &&& match state.mode {
                ModeV::ConfirmWorktreeDelete(flow) => if same_path(
                    flow.target.worktree_path,
                    worktree_path,
                    rules,
                ) {
                    after.mode matches ModeV::ConfirmWorktreeDelete(asked) && asked.target.force
                        && !asked.target.in_progress && asked.context == flow.context
                        && asked.target.branch_name == flow.target.branch_name
                        && asked.target.worktree_path == flow.target.worktree_path
                } else {
                    after.mode == state.mode
                },
                ModeV::BranchSelect(context) => if same_path(context.repo_path, repo_path, rules) {
                    after.mode matches ModeV::ConfirmWorktreeDelete(asked) && asked.target.force
                        && !asked.target.in_progress && asked.context == context
                        && asked.target.branch_name == branch_name && asked.target.worktree_path
                        == worktree_path
                } else {
                    after.mode == state.mode
                },
                _ => after.mode == state.mode,
            }
        }),
{
}

proof fn lemma_without_checkout_is_choice(
    worktrees: Seq<WorktreeV>,
    path: Seq<u8>,
    rules: PathRules,
)
    ensures
        without_checkout(worktrees, path, rules) == worktrees.filter(
            |worktree: WorktreeV| !same_path(worktree.path, path, rules),
        ),
    decreases worktrees.len(),
{
    lemma_filter_step(worktrees, |worktree: WorktreeV| !same_path(worktree.path, path, rules));
    if worktrees.len() > 0 {
        lemma_without_checkout_is_choice(worktrees.drop_last(), path, rules);
    }
}

/// A checkout that was removed is no longer listed with its repository, whose other checkouts
/// stay, and no other repository changes. Where the branches of the repository are shown they
/// are loaded anew; a warning is told.
pub proof fn lemma_removed_checkout_is_gone(
    event: AppEvent,
    state: AppStateV,
    changes: TickChangesV,
    repo_path: Seq<u8>,
    branch_name: Seq<char>,
    worktree_path: Seq<u8>,
    place: int,
)
    requires
        event matches AppEvent::WorktreeRemovalFinished {
            repo_path: of_repo,
            branch_name: of_branch,
            worktree_path: of_worktree,
            outcome,
        } && of_repo@ == repo_path && of_branch@ == branch_name && of_worktree@ == worktree_path
            && outcome is Removed,
        is_awaited(state, repo_path, branch_name, worktree_path),
        0 <= place < state.repo_view.entries.len(),
        same_path(
            state.repo_view.entries[place].repo.path,
            repo_path,
            state.repo_view.path_rules,
        ),
        forall|i: int|
            0 <= i < place ==> !same_path(
                (#[trigger] state.repo_view.entries[i]).repo.path,
                repo_path,
                state.repo_view.path_rules,
            ),
    ensures
        ({
            let (after, changed) = after_event(event, state, changes)->0;
            let rules = state.repo_view.path_rules;
            let entries = after.repo_view.entries;
            let shown = is_asked(state, repo_path, branch_name, worktree_path) || (state.mode
                matches ModeV::BranchSelect(context) && same_path(
                context.repo_path,
                repo_path,
                rules,
            ));
            &&& entries.len() == state.repo_view.entries.len()
            &&& entries[place].repo.worktrees
                == state.repo_view.entries[place].repo.worktrees.filter(
                |worktree: WorktreeV| !same_path(worktree.path, worktree_path, rules),
            )
            &&& entries[place].repo.path == state.repo_view.entries[place].repo.path
            &&& entries[place].repo.name == state.repo_view.entries[place].repo.name
            &&& forall|i: int|
                0 <= i < entries.len() && i != place ==> #[trigger] entries[i]
                    == state.repo_view.entries[i]
            &&& shown ==> (after.mode matches ModeV::BranchSelect(context) && context.repo_path
                == repo_path && context.repo_name == entries[place].repo.name)
            &&& shown ==> after.branch_view.loading && changed.refresh_branch == Some(
                entries[place].repo,
            )
            &&& !shown ==> after.mode == state.mode && after.branch_view == state.branch_view
        }),
{
    let rules = state.repo_view.path_rules;
    let keys = paths_of(state.repo_view.entries);
    lemma_first_place::<PathBuf>(keys, repo_path, rules);
    assert(keys[place] == state.repo_view.entries[place].repo.path);
    let found = first_place::<PathBuf>(keys, repo_path, rules);
    assert(found == Some(place)) by {
        if found is Some && found->0 < place {
            assert(keys[found->0] == state.repo_view.entries[found->0].repo.path);
        }
    }
    lemma_without_checkout_is_choice(
        state.repo_view.entries[place].repo.worktrees,
        worktree_path,
        rules,
    );
    let (after, _) = after_event(event, state, changes)->0;
    let later = paths_of(after.repo_view.entries);
    assert(later =~= keys);
}

/// A removal that failed is told with its branch and the reason; no list changes. Where it was
/// asked about, the branches come back.
pub proof fn lemma_failed_removal_is_told(
    event: AppEvent,
    state: AppStateV,
    changes: TickChangesV,
    repo_path: Seq<u8>,
    branch_name: Seq<char>,
    worktree_path: Seq<u8>,
    error: Seq<char>,
)
    requires
        event matches AppEvent::WorktreeRemovalFinished {
            repo_path: of_repo,
            branch_name: of_branch,
            worktree_path: of_worktree,
            outcome: WorktreeRemovalOutcome::Failed(reason),
        } && of_repo@ == repo_path && of_branch@ == branch_name && of_worktree@ == worktree_path
            && reason@ == error,
        is_awaited(state, repo_path, branch_name, worktree_path),
    ensures
        ({
            let (after, _) = after_event(event, state, changes)->0;
            &&& after.repo_view == state.repo_view
            &&& after.branch_view == state.branch_view
            &&& after.toasts == state.told(
                ToastKind::Error,
                "Failed to remove checkout for "@ + branch_name + ": "@ + error,
            ).toasts
            &&& is_asked(state, repo_path, branch_name, worktree_path) ==> (after.mode matches
                ModeV::BranchSelect(context) && context.repo_path == repo_path)
            &&& !(state.mode is ConfirmWorktreeDelete || state.mode is BranchSelect) ==> after.mode
                == state.mode
        }),
{
}

/// Whether a listed checkout is the one to remove.
pub open spec fn is_listed(
    listed: WorktreeListResponse,
    at: int,
    path: Seq<u8>,
    rules: PathRules,
) -> bool {
    0 <= at < listed.worktrees@.len() && same_place(
        encode_utf8(listed.worktrees@[at].path@),
        path,
        rules,
    )
}

/// A checkout is removed by what herdr has just listed: through the workspace that shows it,
/// else by git at its own path; in either case with force only where the removal has force. One
/// that is not listed is left alone.
pub proof fn lemma_removal_goes_by_the_listing(removal: RemovalV, listed: WorktreeListResponse)
    ensures
        match next_step(OperationV::ListCheckouts(removal), Reply::WorktreeList(Ok(listed))) {
            NextV::Ask(waiting, CallV::WorktreeRemove { workspace_id, force }) => {
                &&& waiting == OperationV::RemoveWorkspace(removal)
                &&& force == removal.force
                &&& exists|at: int| #[trigger]
                    is_listed(listed, at, removal.worktree_path, removal.path_rules)
                        && listed.worktrees@[at].open_workspace_id.deep_view() == Some(
                        workspace_id,
                    )
            },
            NextV::Ask(waiting, CallV::RemoveCheckout { repo_path, worktree_path, force }) => {
                &&& waiting == OperationV::RemoveCheckout(removal)
                &&& repo_path == removal.repo_path
                &&& worktree_path == removal.worktree_path
                &&& force == removal.force
                &&& exists|at: int| #[trigger]
                    is_listed(listed, at, removal.worktree_path, removal.path_rules)
                        && listed.worktrees@[at].open_workspace_id is None
            },
            NextV::Done(FinishedV::Removal { repo_path, branch_name, worktree_path, outcome }) => {
                &&& repo_path == removal.repo_path
                &&& branch_name == removal.branch_name
                &&& worktree_path == removal.worktree_path
                &&& outcome is Failed
                &&& forall|at: int| !#[trigger]
                    is_listed(listed, at, removal.worktree_path, removal.path_rules)
            },
            _ => false,
        },
{
    let all = listed.deep_view().worktrees;
    lemma_checkout_at(all, removal.worktree_path, removal.path_rules);
    match checkout_at(all, removal.worktree_path, removal.path_rules) {
        Some(found) => {
            let at = choose|at: int|
                0 <= at < all.len() && #[trigger] all[at] == found && same_place(
                    encode_utf8(all[at].path),
                    removal.worktree_path,
                    removal.path_rules,
                );
            assert(is_listed(listed, at, removal.worktree_path, removal.path_rules));
        },
        None => {
            assert forall|at: int| !#[trigger]
                is_listed(listed, at, removal.worktree_path, removal.path_rules) by {
                if 0 <= at < all.len() {
                    assert(all[at].path == listed.worktrees@[at].path@);
                }
            }
        },
    }
}

proof fn lemma_checkout_at(worktrees: Seq<WorktreeInfoV>, path: Seq<u8>, rules: PathRules)
    ensures
        match checkout_at(worktrees, path, rules) {
            Some(found) => exists|at: int|
                0 <= at < worktrees.len() && #[trigger] worktrees[at] == found && same_place(
                    encode_utf8(worktrees[at].path),
                    path,
                    rules,
                ),
            None => forall|at: int|
                0 <= at < worktrees.len() ==> !same_place(
                    encode_utf8((#[trigger] worktrees[at]).path),
                    path,
                    rules,
                ),
        },
    decreases worktrees.len(),
{
    if worktrees.len() > 0 {
        if same_place(encode_utf8(worktrees[0].path), path, rules) {
            assert(worktrees[0] == checkout_at(worktrees, path, rules)->0);
        } else {
            let rest = worktrees.drop_first();
            lemma_checkout_at(rest, path, rules);
            match checkout_at(rest, path, rules) {
                Some(found) => {
                    let at = choose|at: int|
                        0 <= at < rest.len() && #[trigger] rest[at] == found && same_place(
                            encode_utf8(rest[at].path),
                            path,
                            rules,
                        );
                    assert(worktrees[at + 1] == found);
                },
                None => {
                    assert forall|at: int| 0 <= at < worktrees.len() implies !same_place(
                        encode_utf8((#[trigger] worktrees[at]).path),
                        path,
                        rules,
                    ) by {
                        if at > 0 {
                            assert(rest[at - 1] == worktrees[at]);
                        }
                    }
                },
            }
        }
    }
}

/// The removal that a piece of work is about.
pub open spec fn is_about(operation: OperationV, removal: RemovalV) -> bool {
    operation == OperationV::ListCheckouts(removal) || operation == OperationV::RemoveWorkspace(
        removal,
    ) || operation == OperationV::RemoveCheckout(removal) || operation == OperationV::Prune(
        removal,
    )
}

/// A removal stays the same removal to its end: what it goes on with is about the same checkout
/// with the same force, and its end is told of that checkout.
pub proof fn lemma_removal_stays_the_same(
    operation: OperationV,
    removal: RemovalV,
    received: Reply,
)
    requires
        is_about(operation, removal),
        awaits(operation, received),
    ensures
        match next_step(operation, received) {
            NextV::Ask(waiting, call) => is_about(waiting, removal) && match call {
                CallV::WorktreeRemove { force, .. } => force == removal.force,
                CallV::RemoveCheckout { repo_path, worktree_path, force } => force == removal.force
                    && repo_path == removal.repo_path && worktree_path == removal.worktree_path,
                CallV::PruneWorktrees { repo_path } => repo_path == removal.repo_path,
                _ => false,
            },
            NextV::Done(FinishedV::Removal { repo_path, branch_name, worktree_path, .. }) =>
                repo_path == removal.repo_path && branch_name == removal.branch_name
                && worktree_path == removal.worktree_path,
            _ => false,
        },
{
}

/// A refusal because of changes asks for force where the removal had none; with force it is a
/// failure like any other, told by its reason. A removal that succeeds carries herdr's warning,
/// or that git could not tidy up behind it.
pub proof fn lemma_refusals_of_removals(
    removal: RemovalV,
    by_herdr: Result<WorktreeRemoveResponse, HerdrError>,
    by_git: Result<(), GitError>,
)
    ensures
        match next_step(OperationV::RemoveWorkspace(removal), Reply::WorktreeRemove(by_herdr)) {
            NextV::Done(FinishedV::Removal { outcome, .. }) => match by_herdr {
                Ok(response) => outcome == (WorktreeRemovalOutcomeV::Removed {
                    warning: response.warning.deep_view(),
                }),
                Err(error) => if error is DirtyWorktreeRequiresForce && !removal.force {
                    outcome is DirtyRequiresForce
                } else {
                    outcome is Failed && (!(error is WorktreeOperationInProgress) ==> outcome
                        == WorktreeRemovalOutcomeV::Failed(error.deep_view().text()))
                },
            },
            _ => false,
        },
        match next_step(OperationV::RemoveCheckout(removal), Reply::RemoveCheckout(by_git)) {
            NextV::Ask(waiting, call) => by_git is Ok && waiting == OperationV::Prune(removal)
                && call == (CallV::PruneWorktrees { repo_path: removal.repo_path }),
            NextV::Done(FinishedV::Removal { outcome, .. }) => match by_git {
                Ok(_) => false,
                Err(error) => if error is DirtyWorktreeRequiresForce && !removal.force {
                    outcome is DirtyRequiresForce
                } else {
                    outcome == WorktreeRemovalOutcomeV::Failed(error.deep_view().text())
                },
            },
            _ => false,
        },
        match next_step(OperationV::Prune(removal), Reply::PruneWorktrees(by_git)) {
            NextV::Done(
                FinishedV::Removal { outcome: WorktreeRemovalOutcomeV::Removed { warning }, .. },
            ) => warning is Some <==> by_git is Err,
            _ => false,
        },
{
}

} // verus!
