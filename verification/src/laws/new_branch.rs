//! Creating branches.

use crate::branches::BranchEntryV;
use crate::effects::EffectV;
use crate::event::{AppEvent, FilterKeyV, FilterTarget};
use crate::laws::lists::{highlights, lemma_filter_step, shows};
use crate::laws::texts::{holds, lemma_holds_middle};
use crate::path::same_path;
use crate::screens::branch::{local_rows, BranchContextV};
use crate::screens::new_branch::{after_create, after_event, after_start, after_validation, default_place, local_named, BaseBranchSelectionV};
use crate::state::{AppStateV, ModeV};
use crate::toasts::ToastKind;
use vstd::prelude::*;
use vstd::string::*;

verus! {

/// A new branch starts from the base that is highlighted: the branch asked for has the name that
/// was validated, in the repository at hand, and what is shown meanwhile names both. Nothing
/// else changes. Outside of herdr the branches come back with an error.
pub proof fn lemma_new_branch_starts_from_the_highlighted_base(
    state: AppStateV,
    context: BranchContextV,
    flow: BaseBranchSelectionV,
    item: int,
    inside_herdr: bool,
)
    requires
        state.mode == (ModeV::SelectBaseBranch { context, flow }),
        0 <= item < flow.bases.len(),
        highlights(flow.list, item),
    ensures
        ({
            let (after, effect) = after_create(state, inside_herdr);
            if inside_herdr {
                &&& effect == Some(
                    EffectV::CreateBranch {
                        repo_path: context.repo_path,
                        branch_name: flow.new_name,
                        base: flow.bases[item],
                    },
                )
                &&& after.mode matches ModeV::Loading { message, branch } && branch == Some(context)
                    && holds(message, flow.new_name) && holds(message, flow.bases[item])
                &&& after == (AppStateV { mode: after.mode, ..state })
            } else {
                &&& effect is None
                &&& after.mode == ModeV::BranchSelect(context)
                &&& after.toasts == state.told(
                    ToastKind::Error,
                    "not running inside herdr"@,
                ).toasts
                &&& after == (AppStateV { mode: after.mode, toasts: after.toasts, ..state })
            }
        }),
{
    let base = flow.bases[item];
    let name = flow.new_name;
    let message = "Creating "@ + name + " from "@ + base + "…"@;
    lemma_holds_middle("Creating "@, name, " from "@ + base + "…"@);
    assert("Creating "@ + name + (" from "@ + base + "…"@) =~= message);
    lemma_holds_middle("Creating "@ + name + " from "@, base, "…"@);
}

/// A branch is only ever asked for with a base that the list shows, whatever was typed.
pub proof fn lemma_base_is_one_of_the_shown_rows(state: AppStateV, inside_herdr: bool)
    ensures
        after_create(state, inside_herdr).1 matches Some(effect) ==> {
            &&& inside_herdr
            &&& effect is CreateBranch
            &&& state.mode matches ModeV::SelectBaseBranch { flow, .. } && exists|item: int|
                0 <= item < flow.bases.len() && #[trigger] highlights(flow.list, item) && shows(
                    flow.list,
                    item,
                ) && effect->CreateBranch_base == flow.bases[item]
        },
        after_create(state, inside_herdr).1 is None && inside_herdr ==> after_create(
            state,
            inside_herdr,
        ).0 == state,
{
    match state.mode {
        ModeV::SelectBaseBranch { context, flow } => match flow.list.selected {
            Some(row) => {
                if row < flow.list.filtered.len() {
                    let item = flow.list.filtered[row as int].0 as int;
                    assert(highlights(flow.list, item));
                    assert(shows(flow.list, item));
                }
            },
            None => {},
        },
        _ => {},
    }
}

proof fn lemma_local_named(entries: Seq<BranchEntryV>, name: Seq<char>)
    ensures
        match local_named(entries, name) {
            Some(branch) => branch.remote is None && branch.name == name && entries.contains(
                branch,
            ),
            None => forall|i: int|
                0 <= i < entries.len() ==> !((#[trigger] entries[i]).remote is None
                    && entries[i].name == name),
        },
    decreases entries.len(),
{
    if entries.len() > 0 {
        let rest = entries.drop_first();
        lemma_local_named(rest, name);
        if entries[0].remote is None && entries[0].name == name {
            assert(entries.contains(entries[0]));
        } else {
            match local_named(rest, name) {
                Some(branch) => {
                    let i = choose|i: int| 0 <= i < rest.len() && rest[i] == branch;
                    assert(entries[i + 1] == branch);
                },
                None => {
                    assert forall|i: int| 0 <= i < entries.len() implies !((
                    #[trigger] entries[i]).remote is None && entries[i].name == name) by {
                        if i > 0 {
                            assert(entries[i] == rest[i - 1]);
                        }
                    }
                },
            }
        }
    }
}

/// A typed name that no local branch has is validated in the repository at hand, as it was
/// typed. A name that a local branch has opens that branch instead. Nothing is asked for while
/// the branches are loading, without a name, or outside of the branches: that is an error.
pub proof fn lemma_typed_name_is_validated_or_opened(state: AppStateV, inside_herdr: bool)
    ensures
        ({
            let (after, effect) = after_start(state, inside_herdr);
            let typed = state.branch_view.list.input.text;
            let taken = exists|i: int|
                0 <= i < state.branch_view.entries.len() && (
                #[trigger] state.branch_view.entries[i]).remote is None
                    && state.branch_view.entries[i].name == typed;
            let ready = state.mode is BranchSelect && !state.branch_view.loading && typed.len() > 0;
            let context = state.mode->BranchSelect_0;
            &&& ready && !taken ==> effect == Some(
                EffectV::ValidateBranchName { repo_path: context.repo_path, branch_name: typed },
            ) && after == (AppStateV {
                mode: ModeV::ValidatingNewBranch { context, name: typed },
                ..state
            })
            &&& ready && taken && inside_herdr ==> (effect matches Some(
                EffectV::OpenBranch { repo_path, branch_name, has_worktree },
            ) && repo_path == context.repo_path && branch_name == typed && exists|i: int|
                0 <= i < state.branch_view.entries.len() && (
                #[trigger] state.branch_view.entries[i]).remote is None
                    && state.branch_view.entries[i].name == typed && has_worktree
                    == state.branch_view.entries[i].worktree_path is Some)
            &&& ready && taken && !inside_herdr ==> effect is None && after.mode == state.mode
            &&& !ready ==> effect is None && after.mode == state.mode && exists|message: Seq<char>|
                after == #[trigger] state.told(ToastKind::Error, message)
        }),
{
    let typed = state.branch_view.list.input.text;
    let entries = state.branch_view.entries;
    lemma_local_named(entries, typed);
    match local_named(entries, typed) {
        Some(branch) => {
            let i = choose|i: int| 0 <= i < entries.len() && entries[i] == branch;
            assert(entries[i].remote is None && entries[i].name == typed);
        },
        None => {},
    }
    let after = after_start(state, inside_herdr).0;
    if !(state.mode is BranchSelect) {
        assert(after == state.told(
            ToastKind::Error,
            "New branches can only be created from the branch view"@,
        ));
    } else if state.branch_view.loading {
        assert(after == state.told(ToastKind::Error, "Branches are still loading"@));
    } else if typed.len() == 0 {
        assert(after == state.told(ToastKind::Error, "Type a branch name first"@));
    }
}

proof fn lemma_local_rows_are_choice(entries: Seq<BranchEntryV>)
    ensures
        local_rows(entries) == entries.filter(|entry: BranchEntryV| entry.remote is None),
    decreases entries.len(),
{
    lemma_filter_step(entries, |entry: BranchEntryV| entry.remote is None);
    if entries.len() > 0 {
        lemma_local_rows_are_choice(entries.drop_last());
    }
}

proof fn lemma_default_place(entries: Seq<BranchEntryV>)
    ensures
        match default_place(entries) {
            Some(place) => 0 <= place < entries.len() && entries[place].is_default && forall|i: int|
                0 <= i < place ==> !(#[trigger] entries[i]).is_default,
            None => forall|i: int| 0 <= i < entries.len() ==> !(#[trigger] entries[i]).is_default,
        },
    decreases entries.len(),
{
    if entries.len() > 0 {
        let before = entries.drop_last();
        lemma_default_place(before);
        assert forall|i: int| 0 <= i < before.len() implies #[trigger] before[i] == entries[i] by {}
        match default_place(before) {
            Some(place) => {
                assert forall|i: int| 0 <= i < place implies !(#[trigger] entries[i]).is_default by {
                    assert(before[i] == entries[i]);
                }
            },
            None => {
                assert forall|i: int| 0 <= i < entries.len() - 1 implies !(
                #[trigger] entries[i]).is_default by {
                    assert(before[i] == entries[i]);
                }
            },
        }
    }
}

/// A good name leads to the choice of a base among the local branches, all of which are shown in
/// their order, with the default branch highlighted, or the first one where there is none. A bad
/// name, an error, or a repository without a local branch lead back to the branches with an
/// error.
pub proof fn lemma_bases_are_the_local_branches(
    state: AppStateV,
    context: BranchContextV,
    name: Seq<char>,
    valid: bool,
    error: Option<Seq<char>>,
)
    requires
        state.branch_view.entries.len() <= usize::MAX,
    ensures
        ({
            let after = after_validation(state, context, name, valid, error);
            let locals = state.branch_view.entries.filter(
                |entry: BranchEntryV| entry.remote is None,
            );
            if valid && error is None && locals.len() > 0 {
                after.mode matches ModeV::SelectBaseBranch { context: of, flow } && {
                    &&& of == context
                    &&& flow.new_name == name
                    &&& flow.bases.len() == locals.len()
                    &&& forall|i: int|
                        0 <= i < locals.len() ==> #[trigger] flow.bases[i] == locals[i].name
                    &&& flow.list.input.text.len() == 0
                    &&& flow.list.filtered.len() == locals.len()
                    &&& forall|i: int|
                        0 <= i < locals.len() ==> (#[trigger] flow.list.filtered[i]).0 == i
                    &&& exists|item: int|
                        0 <= item < locals.len() && #[trigger] highlights(flow.list, item) && (
                        locals[item].is_default || item == 0) && forall|i: int|
                            0 <= i < locals.len() && (#[trigger] locals[i]).is_default ==> item
                                <= i && locals[item].is_default
                }
            } else {
                after.mode == ModeV::BranchSelect(context) && after.branch_view == state.branch_view
                    && exists|message: Seq<char>|
                    after == #[trigger] (AppStateV {
                        mode: ModeV::BranchSelect(context),
                        ..state
                    }).told(ToastKind::Error, message)
            }
        }),
{
    let entries = state.branch_view.entries;
    lemma_local_rows_are_choice(entries);
    let locals = local_rows(entries);
    lemma_default_place(locals);
    lemma_choice_is_no_longer(entries, |entry: BranchEntryV| entry.remote is None);
    let after = after_validation(state, context, name, valid, error);
    let back = AppStateV { mode: ModeV::BranchSelect(context), ..state };
    if valid && error is None && locals.len() > 0 {
        let item = match default_place(locals) {
            Some(place) => place,
            None => 0,
        };
        match after.mode {
            ModeV::SelectBaseBranch { flow, .. } => {
                assert(flow.list.filtered[item].0 == item);
                assert(highlights(flow.list, item));
            },
            _ => {},
        }
    } else if error is Some {
        assert(after == back.told(ToastKind::Error, error->0));
    } else if !valid {
        assert(after == back.told(ToastKind::Error, "Invalid branch name: "@ + name));
    } else {
        assert(after == back.told(ToastKind::Error, "No local branches to use as base"@));
    }
}

proof fn lemma_choice_is_no_longer<T>(all: Seq<T>, keep: spec_fn(T) -> bool)
    ensures
        all.filter(keep).len() <= all.len(),
    decreases all.len(),
{
    lemma_filter_step(all, keep);
    if all.len() > 0 {
        lemma_choice_is_no_longer(all.drop_last(), keep);
    }
}

/// The answer about a name counts for the name and the repository that wait for it, and for no
/// others.
pub proof fn lemma_validation_counts_for_its_name(event: AppEvent, state: AppStateV)
    requires
        event is BranchNameValidated,
    ensures
        after_event(event, state) is Some <==> (state.mode matches ModeV::ValidatingNewBranch {
            context,
            name,
        } && name == event->BranchNameValidated_branch_name@ && same_path(
            context.repo_path,
            event->BranchNameValidated_repo_path@,
            state.repo_view.path_rules,
        )),
        after_event(event, state) matches Some(after) ==> after == after_validation(
            state,
            state.mode->ValidatingNewBranch_context,
            state.mode->ValidatingNewBranch_name,
            event->BranchNameValidated_valid,
            event->BranchNameValidated_error.deep_view(),
        ),
{
}

/// A search for a base asks the filter about all bases, each under its own name and by what was
/// typed, and no other answer than the one to the latest search is taken in. Without anything
/// typed all bases are shown and the first one is highlighted.
pub proof fn lemma_bases_are_searched_by_name(
    state: AppStateV,
    context: BranchContextV,
    flow: BaseBranchSelectionV,
)
    requires
        state.mode == (ModeV::SelectBaseBranch { context, flow }),
        flow.bases.len() <= usize::MAX,
    ensures
        ({
            let (after, request) = state.bases_refiltered();
            &&& after.mode is SelectBaseBranch
            &&& after.mode->flow.bases == flow.bases
            &&& after.mode->flow.new_name == flow.new_name
            &&& after.mode->SelectBaseBranch_context == context
            &&& match request {
                Some(asked) => {
                    &&& flow.list.input.text.len() > 0
                    &&& asked.target == FilterTarget::Bases
                    &&& asked.query == flow.list.input.text
                    &&& asked.generation == after.new_branch.filter_generation
                    &&& asked.items.len() == flow.bases.len()
                    &&& forall|i: int|
                        0 <= i < flow.bases.len() ==> (#[trigger] asked.items[i]).text
                            == flow.bases[i] && asked.items[i].key == FilterKeyV::Base(
                            flow.bases[i],
                        )
                },
                None => {
                    &&& flow.list.input.text.len() == 0
                    &&& after.mode->flow.list.filtered.len() == flow.bases.len()
                    &&& forall|i: int|
                        0 <= i < flow.bases.len() ==> (
                        #[trigger] after.mode->flow.list.filtered[i]).0 == i
                    &&& flow.bases.len() > 0 ==> highlights(after.mode->flow.list, 0)
                },
            }
        }),
{
    let (after, request) = state.bases_refiltered();
    if flow.list.input.text.len() == 0 && flow.bases.len() > 0 {
        assert(after.mode->flow.list.filtered[0].0 == 0);
    }
}

/// Another answer than the one to the latest search changes nothing.
pub proof fn lemma_only_the_latest_search_counts(event: AppEvent, state: AppStateV)
    requires
        event matches AppEvent::FilterCompleted { target, generation, .. } && (target
            != FilterTarget::Bases || generation != state.new_branch.filter_generation),
    ensures
        after_event(event, state) is None,
{
}

} // verus!
