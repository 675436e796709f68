//! Where events go.

use crate::app::{after_event, help_filtered};
use crate::effects::TickChangesV;
use crate::event::{AppEvent, FilterTarget};
use crate::screens::{branch, delete, new_branch, repo};
use crate::state::AppStateV;
use vstd::prelude::*;

verus! {

/// What the end of a removal does is for the removals to say, wherever it is known there; else
/// it does nothing.
pub proof fn lemma_end_of_removal_reaches_the_removals(
    event: AppEvent,
    state: AppStateV,
    changes: TickChangesV,
    now: u64,
)
    requires
        event is WorktreeRemovalFinished,
    ensures
        delete::after_event(event, state, changes) matches Some(after) ==> after_event(
            event,
            state,
            changes,
            now,
        ) == after,
        delete::after_event(event, state, changes) is None ==> after_event(
            event,
            state,
            changes,
            now,
        ) == (state, changes),
{
}

/// What was found in a search for repositories is for the repositories to list.
pub proof fn lemma_found_repositories_reach_the_list(
    event: AppEvent,
    state: AppStateV,
    changes: TickChangesV,
    now: u64,
)
    requires
        event is ReposFound || event is ScanComplete || event is ScanWarning
            || event is OpenWorkspacesLoaded || event is OpenFolderPanesLoaded,
    ensures
        repo::after_event(event, state, changes) == Some(after_event(event, state, changes, now)),
        after_event(event, state, changes, now).0.branch_view == state.branch_view,
        after_event(event, state, changes, now).0.mode == state.mode,
        after_event(event, state, changes, now).0.delete == state.delete,
{
}

/// Once a workspace is open the picker is to end, with what there is to warn of; nothing else
/// changes.
pub proof fn lemma_open_workspace_ends_the_picker(
    event: AppEvent,
    state: AppStateV,
    changes: TickChangesV,
    now: u64,
)
    requires
        event is RepoOpened,
    ensures
        ({
            let (after, noted) = after_event(event, state, changes, now);
            &&& after == state
            &&& noted.workspace_opened
            &&& noted.open_warning == event->RepoOpened_warning.deep_view()
            &&& noted.save_pending == changes.save_pending
            &&& noted.resume_pending_deletes == changes.resume_pending_deletes
        }),
{
}

/// The answer to a search goes to the list that asked for it, while no later search was made
/// there; the answer to any earlier search does nothing.
pub proof fn lemma_answers_go_to_their_list(
    event: AppEvent,
    state: AppStateV,
    changes: TickChangesV,
    now: u64,
)
    requires
        event is FilterCompleted,
    ensures
        ({
            let (after, noted) = after_event(event, state, changes, now);
            let matches = event->FilterCompleted_matches.deep_view();
            let selected = event->FilterCompleted_selected.deep_view();
            let generation = event->FilterCompleted_generation;
            &&& noted == changes
            &&& match event->FilterCompleted_target {
                FilterTarget::Repos => {
                    &&& generation == state.repo_view.filter_generation ==> after == (AppStateV {
                        repo_view: state.repo_view.with_filter(matches, selected),
                        ..state
                    })
                    &&& generation != state.repo_view.filter_generation ==> after == state
                },
                FilterTarget::Branches => {
                    &&& generation == state.branch_view.filter_generation ==> after == (AppStateV {
                        branch_view: state.branch_view.with_filter(matches, selected),
                        ..state
                    })
                    &&& generation != state.branch_view.filter_generation ==> after == state
                },
                FilterTarget::Bases => {
                    &&& generation == state.new_branch.filter_generation
                        ==> new_branch::after_event(event, state) == Some(after)
                    &&& generation != state.new_branch.filter_generation ==> after == state
                },
                FilterTarget::Help => {
                    &&& generation == state.help_filter_generation && state.help_overlay is Some
                        ==> after == (AppStateV {
                        help_overlay: Some(
                            help_filtered(state.help_overlay->0, matches, selected),
                        ),
                        ..state
                    })
                    &&& generation != state.help_filter_generation ==> after == state
                    &&& state.help_overlay is None ==> after == state
                },
            }
        }),
{
}

/// What was loaded of a repository is for its branches to show.
pub proof fn lemma_loaded_branches_reach_the_list(
    event: AppEvent,
    state: AppStateV,
    changes: TickChangesV,
    now: u64,
)
    requires
        event is BranchesLoaded || event is RemoteBranchesLoaded || event is OpenWorktreesLoaded,
    ensures
        branch::after_event(event, state, changes, now) == Some(
            after_event(event, state, changes, now),
        ),
{
}

} // verus!
