use herdr_kiosk::app::process_app_event;
use herdr_kiosk::branches::BranchEntry;
use herdr_kiosk::effects::{Effect, TickChanges};
use herdr_kiosk::event::{AppEvent, WorktreeRemovalOutcome};
use herdr_kiosk::git::provider::{DirtyWorktreeRequiresForce, GitError};
use herdr_kiosk::git::repo::{Repo, Worktree};
use herdr_kiosk::herdr::{
    HerdrError, WorktreeInfo, WorktreeListResponse, WorktreeRemoveResponse,
};
use herdr_kiosk::input::SearchableList;
use herdr_kiosk::path::{PathBuf, PathRules};
use herdr_kiosk::pending_delete::PendingWorktreeDelete;
use herdr_kiosk::screens::branch::{refresh, BranchContext, OpenWorktreeLoadState};
use herdr_kiosk::screens::delete::{
    begin, cancel, confirm, confirm_saved, load_pending, resume, selected_target,
};
use herdr_kiosk::screens::repo::RepoEntry;
use herdr_kiosk::spawn::{Call, Next, Operation, Reply};
use herdr_kiosk::state::{AppState, Mode};
use herdr_kiosk::state_store::SavedFile;

fn path(text: &str) -> PathBuf {
    PathBuf::new(text)
}

fn state_with_repo() -> AppState {
    let mut state = AppState::new(None);
    state.repo_view.entries.push(RepoEntry::new(Repo {
        name: "repo".into(),
        path: path("/repo"),
        is_git: true,
        worktrees: Vec::new(),
    }));
    state.repo_view.list = SearchableList::new(1);
    state
}

fn state_with_branch() -> AppState {
    let mut state = state_with_repo();
    state.mode = Mode::BranchSelect(BranchContext {
        repo_path: path("/repo"),
        repo_name: "repo".into(),
    });
    state.branch_view.entries = vec![BranchEntry {
        name: "feature".into(),
        worktree_path: Some(path("/repo-feature")),
        is_current: false,
        is_default: false,
        remote: None,
        open_workspace_id: None,
    }];
    state.branch_view.list = SearchableList::new(1);
    state.branch_view.open_worktree_load_state = OpenWorktreeLoadState::Loaded {
        repo_path: path("/repo"),
        generation: state.branch_view.generation,
    };
    state
}

fn listed(open_workspace_id: Option<&str>) -> Reply {
    Reply::WorktreeList(Ok(WorktreeListResponse {
        worktrees: vec![WorktreeInfo {
            path: "/repo-feature".into(),
            branch: Some("feature".into()),
            open_workspace_id: open_workspace_id.map(Into::into),
        }],
    }))
}

/// Confirms the removal and follows it through the given replies.
fn remove(state: &mut AppState, replies: Vec<Reply>) -> (Vec<Call>, AppEvent) {
    assert_eq!(confirm(state, 100), Some(Effect::SavePendingThenRemove));
    let effect = confirm_saved(state, None);
    let Some(Effect::RemoveWorktree {
        repo_path,
        branch_name,
        worktree_path,
        force,
    }) = effect
    else {
        panic!("unexpected {effect:?}")
    };
    let mut next = Operation::remove_worktree(
        repo_path,
        branch_name,
        worktree_path,
        force,
        true,
        PathRules::Unix,
    );
    let mut replies = replies.into_iter();
    let mut calls = Vec::new();
    loop {
        match next {
            Next::Ask(operation, call) => {
                calls.push(call);
                next = operation.resume(replies.next().unwrap());
            }
            Next::Done(finished) => return (calls, finished.into_event()),
        }
    }
}

fn settle(event: AppEvent, state: &mut AppState) -> TickChanges {
    let mut changes = TickChanges::default();
    process_app_event(event, state, &mut changes, 100);
    changes
}

fn list_call() -> Call {
    Call::WorktreeList { cwd: path("/repo") }
}

fn remove_call(force: bool) -> Call {
    Call::WorktreeRemove {
        workspace_id: "w_1".into(),
        force,
    }
}

#[test]
fn tests_delete_guards_refuse_main_checkout_and_remote_only_entries_in_state() {
    let mut state = AppState::new(None);
    state.mode = Mode::BranchSelect(BranchContext {
        repo_path: path("/repo"),
        repo_name: "repo".into(),
    });
    state.branch_view.entries = vec![BranchEntry {
        name: "main".into(),
        worktree_path: Some(path("/repo")),
        is_current: true,
        is_default: true,
        remote: None,
        open_workspace_id: Some("w_1".into()),
    }];
    state.branch_view.list = SearchableList::new(1);
    assert_eq!(
        selected_target(&state, None, None),
        Err("Cannot delete the main checkout")
    );

    state.branch_view.entries[0] = BranchEntry {
        name: "remote-only".into(),
        worktree_path: None,
        is_current: false,
        is_default: false,
        remote: Some("origin".into()),
        open_workspace_id: None,
    };
    assert_eq!(
        selected_target(&state, None, None),
        Err("Remote-only branches have no checkout to delete")
    );
}

#[test]
fn delete_before_open_state_load_is_refused() {
    let mut state = state_with_branch();
    state.branch_view.open_worktree_load_state = OpenWorktreeLoadState::Unknown;

    begin(&mut state, None, None);

    assert!(matches!(state.mode, Mode::BranchSelect(_)));
    assert!(state
        .toasts
        .last()
        .is_some_and(|toast| toast.message.contains("still loading")));
    assert_eq!(confirm(&mut state, 0), None);
}

#[test]
fn delete_after_open_state_failure_is_refused() {
    let mut state = state_with_branch();
    state.branch_view.open_worktree_load_state = OpenWorktreeLoadState::Failed {
        repo_path: path("/repo"),
        generation: state.branch_view.generation,
    };

    begin(&mut state, None, None);

    assert!(matches!(state.mode, Mode::BranchSelect(_)));
    assert!(state.toasts.last().is_some_and(|toast| {
        toast
            .message
            .contains("open checkout state could not be loaded")
    }));
}

#[test]
fn checkout_becoming_open_after_confirmation_routes_removal_through_herdr() {
    let mut state = state_with_branch();

    begin(&mut state, None, None);
    assert!(matches!(
        &state.mode,
        Mode::ConfirmWorktreeDelete(flow)
            if flow.target.open_workspace_id.is_none()
    ));

    let (calls, _) = remove(
        &mut state,
        vec![
            listed(Some("w_1")),
            Reply::WorktreeRemove(Ok(WorktreeRemoveResponse { warning: None })),
        ],
    );

    assert_eq!(calls, [list_call(), remove_call(false)]);
}

#[test]
fn fresh_open_state_failure_refuses_removal_without_falling_back_to_git() {
    let mut state = state_with_branch();

    begin(&mut state, None, None);
    let (calls, event) = remove(
        &mut state,
        vec![Reply::WorktreeList(Err(HerdrError::Invocation(
            "herdr unavailable".into(),
        )))],
    );
    settle(event, &mut state);

    assert!(matches!(state.mode, Mode::BranchSelect(_)));
    assert!(state.toasts.last().is_some_and(|toast| {
        toast
            .message
            .contains("could not refresh open checkout state")
    }));
    assert_eq!(calls, [list_call()]);
}

#[test]
fn herdr_delete_requires_a_second_force_confirmation_then_refreshes() {
    let mut state = state_with_branch();
    state.branch_view.entries[0].open_workspace_id = Some("w_1".into());

    begin(&mut state, None, None);
    let (first_calls, first) = remove(
        &mut state,
        vec![
            listed(Some("w_1")),
            Reply::WorktreeRemove(Err(HerdrError::DirtyWorktreeRequiresForce("dirty".into()))),
        ],
    );
    settle(first, &mut state);
    assert!(matches!(
        &state.mode,
        Mode::ConfirmWorktreeDelete(flow)
            if flow.target.force && !flow.target.in_progress
    ));

    let (second_calls, second) = remove(
        &mut state,
        vec![
            listed(Some("w_1")),
            Reply::WorktreeRemove(Ok(WorktreeRemoveResponse { warning: None })),
        ],
    );
    let changes = settle(second, &mut state);
    assert!(matches!(state.mode, Mode::BranchSelect(_)));
    assert!(changes.refresh_branch.is_some());
    assert_eq!(first_calls, [list_call(), remove_call(false)]);
    assert_eq!(second_calls, [list_call(), remove_call(true)]);
}

#[test]
fn closed_git_checkout_requires_force_confirmation_and_prunes_after_success() {
    let mut state = state_with_branch();

    begin(&mut state, None, None);
    let (first_calls, first) = remove(
        &mut state,
        vec![
            listed(None),
            Reply::RemoveCheckout(Err(GitError::DirtyWorktreeRequiresForce(
                DirtyWorktreeRequiresForce,
            ))),
        ],
    );
    settle(first, &mut state);
    assert!(matches!(
        &state.mode,
        Mode::ConfirmWorktreeDelete(flow)
            if flow.target.force && !flow.target.in_progress
    ));

    let (second_calls, second) = remove(
        &mut state,
        vec![
            listed(None),
            Reply::RemoveCheckout(Ok(())),
            Reply::PruneWorktrees(Ok(())),
        ],
    );
    let changes = settle(second, &mut state);
    assert!(matches!(state.mode, Mode::BranchSelect(_)));
    assert!(changes.refresh_branch.is_some());
    let checkout = |force| Call::RemoveCheckout {
        repo_path: path("/repo"),
        worktree_path: path("/repo-feature"),
        force,
    };
    assert_eq!(first_calls, [list_call(), checkout(false)]);
    assert_eq!(
        second_calls,
        [
            list_call(),
            checkout(true),
            Call::PruneWorktrees {
                repo_path: path("/repo"),
            },
        ]
    );
}

#[test]
fn post_deletion_refresh_rejects_old_final_fetch_without_clearing_spinner() {
    let mut state = state_with_branch();
    let old_generation = state.branch_view.generation;
    begin(&mut state, None, None);
    if let Mode::ConfirmWorktreeDelete(flow) = &mut state.mode {
        flow.target.in_progress = true;
    }

    let mut changes = settle(
        AppEvent::WorktreeRemovalFinished {
            repo_path: path("/repo"),
            branch_name: "feature".into(),
            worktree_path: path("/repo-feature"),
            outcome: WorktreeRemovalOutcome::Removed { warning: None },
        },
        &mut state,
    );
    let repo = changes.refresh_branch.take().expect("branch refresh");
    refresh(&mut state, repo, false);
    assert_eq!(state.branch_view.generation, old_generation + 1);
    state.branch_view.fetching_remote_repo = Some(path("/repo"));

    settle(
        AppEvent::GitFetchCompleted {
            remote: Some("origin".into()),
            branches: Vec::new(),
            repo_path: path("/repo"),
            generation: old_generation,
            error: None,
            is_final: true,
            skipped_unsupported_refs: false,
        },
        &mut state,
    );

    assert_eq!(state.branch_view.fetching_remote_repo, Some(path("/repo")));
}

fn pending() -> PendingWorktreeDelete {
    PendingWorktreeDelete::new(path("/repo"), "feature".into(), path("/repo-feature"), 100)
}

#[test]
fn late_recovered_delete_completion_does_not_change_a_newer_mode() {
    let mut state = state_with_repo();
    state.repo_view.entries[0].repo.worktrees.push(Worktree {
        path: path("/repo-feature"),
        branch: Some("feature".into()),
    });
    state.delete.in_flight.push(path("/repo-feature"));
    state.mark_pending_worktree_delete(pending());

    let changes = settle(
        AppEvent::WorktreeRemovalFinished {
            repo_path: path("/repo"),
            branch_name: "feature".into(),
            worktree_path: path("/repo-feature"),
            outcome: WorktreeRemovalOutcome::Removed { warning: None },
        },
        &mut state,
    );

    assert_eq!(state.mode, Mode::RepoSelect);
    assert!(state.delete.pending.is_empty());
    assert!(state.repo_view.entries[0].repo.worktrees.is_empty());
    assert!(changes.refresh_branch.is_none());
}

#[test]
fn saved_removals_are_resumed_once() {
    let mut state = state_with_branch();
    assert_eq!(
        load_pending(
            &mut state,
            SavedFile::Parsed {
                version: 1,
                entries: vec![pending()],
            },
            100,
        ),
        None
    );
    assert_eq!(resume(&mut state).len(), 1);
    assert!(resume(&mut state).is_empty());
}

#[test]
fn a_removal_that_cannot_be_saved_is_not_started() {
    let mut state = state_with_branch();
    begin(&mut state, None, None);
    assert_eq!(confirm(&mut state, 0), Some(Effect::SavePendingThenRemove));
    assert_eq!(confirm_saved(&mut state, Some("disk full")), None);
    assert!(state.delete.pending.is_empty());
    assert!(state
        .toasts
        .last()
        .is_some_and(|toast| toast.message.contains("disk full")));
}

#[test]
fn cancelling_leaves_the_dialog() {
    let mut state = state_with_branch();
    begin(&mut state, None, None);
    let (cancelled, _) = cancel(&mut state);
    assert!(cancelled);
    assert!(matches!(state.mode, Mode::BranchSelect(_)));
    let (again, effect) = cancel(&mut state);
    assert!(!again);
    assert_eq!(effect, None);
}
