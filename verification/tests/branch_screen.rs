use herdr_kiosk::app::{
    apply_exit_effects, process_action, process_app_event, RunOutcome, Surroundings,
};
use herdr_kiosk::branches::{BranchEntry, BranchId};
use herdr_kiosk::config::keys::KeysConfig;
use herdr_kiosk::config::OnOpenConfig;
use herdr_kiosk::effects::{Effect, TickChanges};
use herdr_kiosk::event::{AppEvent, FilterKey, FilterTarget};
use herdr_kiosk::fuzzy::{answer_filter, Matcher};
use herdr_kiosk::git::provider::{GitError, LocalBranchAlreadyExists};
use herdr_kiosk::git::repo::Repo;
use herdr_kiosk::git::UNSUPPORTED_REF_WARNING;
use herdr_kiosk::herdr::{
    HerdrError, OpenedWorktree, WorktreeCreateResponse, WorktreeInfo, WorktreeListResponse,
    WorktreeOpenResponse, WorktreeOpenTarget,
};
use herdr_kiosk::input::SearchableList;
use herdr_kiosk::keyboard::Action;
use herdr_kiosk::path::{PathBuf, PathRules};
use herdr_kiosk::screens::branch::{
    enter, open_selected, queue_filter, refresh, BranchContext, BranchViewState,
    OpenWorktreeLoadState,
};
use herdr_kiosk::screens::repo::RepoEntry;
use herdr_kiosk::spawn::{branches_event, Call, Next, Operation, Reply};
use herdr_kiosk::state::{AppState, Mode};
use herdr_kiosk::toasts::ToastKind;

fn path(text: &str) -> PathBuf {
    PathBuf::new(text)
}

fn repo(text: &str) -> Repo {
    Repo {
        name: "repo".into(),
        path: path(text),
        is_git: true,
        worktrees: Vec::new(),
    }
}

fn plain(name: &str) -> BranchEntry {
    BranchEntry {
        name: name.into(),
        worktree_path: None,
        is_current: false,
        is_default: false,
        remote: None,
        open_workspace_id: None,
    }
}

fn state_with_repo() -> AppState {
    let mut state = AppState::new(None);
    state.repo_view.entries.push(RepoEntry::new(repo("/repo")));
    state.repo_view.list = SearchableList::new(1);
    state
}

fn state_with_branch(has_worktree: bool) -> AppState {
    let mut state = state_with_repo();
    state.mode = Mode::BranchSelect(BranchContext {
        repo_path: path("/repo"),
        repo_name: "repo".into(),
    });
    let mut entry = plain("feature");
    if has_worktree {
        entry.worktree_path = Some(path("/repo-feature"));
    }
    state.branch_view.entries = vec![entry];
    state.branch_view.list = SearchableList::new(1);
    state.branch_view.open_worktree_load_state = OpenWorktreeLoadState::Loaded {
        repo_path: path("/repo"),
        generation: state.branch_view.generation,
    };
    state
}

fn worktree() -> WorktreeInfo {
    WorktreeInfo {
        path: "/repo-feature".into(),
        branch: Some("feature".into()),
        open_workspace_id: Some("w_1".into()),
    }
}

fn opened_worktree() -> OpenedWorktree {
    OpenedWorktree {
        workspace_id: "w_1".into(),
        root_pane_id: "p_root".into(),
        path: "/repo-feature".into(),
    }
}

fn open_response(already_open: bool) -> Reply {
    Reply::WorktreeOpen(Ok(WorktreeOpenResponse {
        opened: Some(opened_worktree()),
        already_open: Some(already_open),
        warning: None,
    }))
}

fn create_response() -> Reply {
    Reply::WorktreeCreate(Ok(WorktreeCreateResponse {
        opened: Some(opened_worktree()),
        warning: None,
    }))
}

fn around() -> Surroundings {
    Surroundings {
        inside_herdr: false,
        now: 0,
        canonical_checkout: None,
        canonical_repo: None,
    }
}

/// Follows an opening through the given replies: what was asked, and how it ended.
fn follow(effect: Option<Effect>, replies: Vec<Reply>) -> (Vec<Call>, AppEvent) {
    let mut next = match effect {
        Some(Effect::OpenBranch {
            repo_path,
            branch_name,
            has_worktree,
        }) => Operation::open_branch(
            repo_path,
            branch_name,
            has_worktree,
            OnOpenConfig::default(),
        ),
        Some(Effect::OpenRemoteBranch {
            repo_path,
            branch_name,
            remote,
        }) => {
            Operation::open_remote_branch(repo_path, branch_name, remote, OnOpenConfig::default())
        }
        other => panic!("unexpected {other:?}"),
    };
    let mut replies = replies.into_iter();
    let mut calls = Vec::new();
    loop {
        match next {
            Next::Ask(operation, call) => {
                calls.push(call);
                next = operation.resume(replies.next().unwrap());
            }
            Next::Done(finished) => return (calls, finished.into_event()),
        }
    }
}

fn settle(event: AppEvent, state: &mut AppState) -> TickChanges {
    let mut changes = TickChanges::default();
    process_app_event(event, state, &mut changes, 0);
    changes
}

#[test]
fn branch_view_transition_and_back_preserve_repo_filter_and_selection() {
    let mut state = state_with_repo();
    state.repo_view.list.input.text = "repo".into();
    state.repo_view.list.input.cursor = 4;
    state.repo_view.list.scroll_offset = 3;
    state.repo_view.selection_touched = true;

    enter(&mut state, false);
    assert!(matches!(state.mode, Mode::BranchSelect(_)));
    assert_eq!(state.repo_view.list.input.text, "repo");
    assert_eq!(state.repo_view.list.selected, Some(0));
    assert_eq!(state.repo_view.list.scroll_offset, 3);

    process_action(
        Action::BackToRepos,
        &mut state,
        &KeysConfig::default(),
        &around(),
    );
    assert_eq!(state.mode, Mode::RepoSelect);
    assert_eq!(state.repo_view.list.input.text, "repo");
    assert_eq!(state.repo_view.list.selected, Some(0));
    assert_eq!(state.repo_view.list.scroll_offset, 3);
}

#[test]
fn branch_view_rejects_plain_folders_with_a_hint() {
    let mut state = state_with_repo();
    state.repo_view.entries[0].repo.is_git = false;

    enter(&mut state, false);

    assert_eq!(state.mode, Mode::RepoSelect);
    assert_eq!(
        state.toasts.first().map(|toast| toast.message.as_str()),
        Some("Branches are only available for git repositories")
    );
}

#[test]
fn existing_checkout_routes_to_open_and_success_exits() {
    let mut state = state_with_branch(true);

    let effect = open_selected(&mut state, true);
    assert!(matches!(
        &state.mode,
        Mode::Loading { message, branch: Some(_) } if message == "Opening feature…"
    ));
    let (calls, event) = follow(effect, vec![open_response(false)]);
    assert!(settle(event, &mut state).workspace_opened);
    assert_eq!(
        calls,
        [Call::WorktreeOpen {
            cwd: path("/repo"),
            target: WorktreeOpenTarget::Branch("feature".into()),
            focus: true,
        }]
    );
}

#[test]
fn on_open_warning_emits_notification_exit_effect_without_cancelling_open_success() {
    let mut state = state_with_repo();
    let mut changes = TickChanges::default();

    process_app_event(
        AppEvent::RepoOpened {
            warning: Some("on_open: pane 1 run failed".into()),
        },
        &mut state,
        &mut changes,
        0,
    );

    assert!(changes.workspace_opened);
    assert_eq!(
        apply_exit_effects(&mut changes),
        Some((
            RunOutcome::Opened,
            Some("on_open: pane 1 run failed".into())
        ))
    );
}

#[test]
fn missing_checkout_routes_to_create_without_base_or_path_and_success_exits() {
    let mut state = state_with_branch(false);

    let effect = open_selected(&mut state, true);
    assert!(matches!(
        &state.mode,
        Mode::Loading { message, branch: Some(_) }
            if message == "Creating worktree for feature…"
    ));
    let (calls, event) = follow(effect, vec![create_response()]);
    assert!(settle(event, &mut state).workspace_opened);
    let Call::WorktreeCreate(request) = &calls[0] else {
        panic!("expected worktree create")
    };
    assert_eq!(request.cwd, path("/repo"));
    assert_eq!(request.branch, "feature");
    assert!(request.base.is_none());
    assert!(request.path.is_none());
    assert!(request.focus);
}

#[test]
fn stale_create_route_refreshes_worktrees_and_retries_open_once() {
    let mut state = state_with_branch(false);

    let effect = open_selected(&mut state, true);
    let (calls, event) = follow(
        effect,
        vec![
            Reply::WorktreeCreate(Err(HerdrError::WorktreeCreateFailed(
                "feature is already checked out".into(),
            ))),
            Reply::WorktreeList(Ok(WorktreeListResponse {
                worktrees: vec![worktree()],
            })),
            open_response(true),
        ],
    );

    assert!(settle(event, &mut state).workspace_opened);
    assert_eq!(calls.len(), 3);
    assert!(matches!(calls[0], Call::WorktreeCreate(_)));
    assert!(matches!(calls[1], Call::WorktreeList { .. }));
    assert!(matches!(
        &calls[2],
        Call::WorktreeOpen {
            target: WorktreeOpenTarget::Branch(branch),
            ..
        } if branch == "feature"
    ));
}

#[test]
fn stale_open_route_refreshes_worktrees_and_retries_create_once() {
    let mut state = state_with_branch(true);

    let effect = open_selected(&mut state, true);
    let (calls, event) = follow(
        effect,
        vec![
            Reply::WorktreeOpen(Err(HerdrError::WorktreeNotFound("feature vanished".into()))),
            Reply::WorktreeList(Ok(WorktreeListResponse {
                worktrees: Vec::new(),
            })),
            create_response(),
        ],
    );

    assert!(settle(event, &mut state).workspace_opened);
    assert_eq!(calls.len(), 3);
    assert!(matches!(calls[0], Call::WorktreeOpen { .. }));
    assert!(matches!(calls[1], Call::WorktreeList { .. }));
    assert!(matches!(calls[2], Call::WorktreeCreate(_)));
}

#[test]
fn open_failure_returns_to_branch_view() {
    let mut state = state_with_branch(true);
    let effect = open_selected(&mut state, true);
    let (_, event) = follow(
        effect,
        vec![Reply::WorktreeOpen(Err(HerdrError::WorktreeOpenFailed(
            "boom".into(),
        )))],
    );
    settle(event, &mut state);
    assert!(matches!(state.mode, Mode::BranchSelect(_)));
    assert!(state.toasts[0].message.contains("boom"));
}

#[test]
fn create_in_progress_failure_is_friendly_and_returns_to_branch_view() {
    let mut state = state_with_branch(false);
    let effect = open_selected(&mut state, true);
    let (_, event) = follow(
        effect,
        vec![Reply::WorktreeCreate(Err(
            HerdrError::WorktreeOperationInProgress("raw details".into()),
        ))],
    );
    settle(event, &mut state);
    assert!(matches!(state.mode, Mode::BranchSelect(_)));
    let message = &state.toasts[0].message;
    assert!(message.contains("already in progress"));
    assert!(!message.contains("worktree_operation_in_progress"));
}

#[test]
fn remote_branch_race_falls_through_to_worktree_create_with_entry_remote() {
    let mut state = state_with_branch(false);
    state.branch_view.entries[0].remote = Some("upstream".into());

    let effect = open_selected(&mut state, true);

    assert!(matches!(
        &state.mode,
        Mode::Loading { message, branch: Some(_) }
            if message == "Checking out remote branch feature…"
    ));
    let (calls, event) = follow(
        effect,
        vec![
            Reply::CreateTrackingBranch(Err(GitError::LocalBranchAlreadyExists(
                LocalBranchAlreadyExists::new("feature"),
            ))),
            create_response(),
        ],
    );
    assert!(settle(event, &mut state).workspace_opened);
    assert_eq!(
        calls[0],
        Call::CreateTrackingBranch {
            repo_path: path("/repo"),
            branch: "feature".into(),
            remote: "upstream".into(),
        }
    );
    let Call::WorktreeCreate(request) = &calls[1] else {
        panic!("expected worktree create")
    };
    assert_eq!(request.branch, "feature");
    assert!(request.base.is_none());
    assert!(request.path.is_none());
    assert!(request.focus);
}

#[test]
fn remote_tracking_failure_returns_to_branch_view_without_creating_worktree() {
    let mut state = state_with_branch(false);
    state.branch_view.entries[0].remote = Some("upstream".into());

    let effect = open_selected(&mut state, true);
    let (calls, event) = follow(
        effect,
        vec![Reply::CreateTrackingBranch(Err(GitError::Other(
            "remote ref is missing".into(),
        )))],
    );
    settle(event, &mut state);

    assert!(matches!(state.mode, Mode::BranchSelect(_)));
    assert!(state.toasts[0].message.contains("remote ref is missing"));
    assert_eq!(calls.len(), 1);
}

#[test]
fn same_named_remote_rows_track_the_selected_remote() {
    for (selected, expected_remote) in [(0, "origin"), (1, "upstream")] {
        let mut state = state_with_branch(false);
        state.branch_view.entries = ["origin", "upstream"]
            .map(|remote| BranchEntry::build_remote(remote, &["feature".into()], &[]))
            .into_iter()
            .flatten()
            .collect();
        state.branch_view.list = SearchableList::new(2);
        state.branch_view.list.selected = Some(selected);

        let effect = open_selected(&mut state, true);
        let (calls, event) = follow(
            effect,
            vec![Reply::CreateTrackingBranch(Ok(())), create_response()],
        );
        assert!(matches!(event, AppEvent::RepoOpened { .. }));
        assert_eq!(
            calls[0],
            Call::CreateTrackingBranch {
                repo_path: path("/repo"),
                branch: "feature".into(),
                remote: expected_remote.into(),
            }
        );
    }
}

#[test]
fn tracking_success_then_create_failure_reconciles_to_selected_local_branch() {
    let mut state = state_with_branch(false);
    state.branch_view.entries[0].remote = Some("upstream".into());
    state.branch_view.list.input.text = "upstream/feature".into();
    state.branch_view.list.input.cursor = state.branch_view.list.input.text.len();

    let effect = open_selected(&mut state, true);
    let (_, event) = follow(
        effect,
        vec![
            Reply::CreateTrackingBranch(Ok(())),
            Reply::WorktreeCreate(Err(HerdrError::WorktreeCreateFailed("disk full".into()))),
        ],
    );
    let mut changes = settle(event, &mut state);

    assert!(matches!(state.mode, Mode::BranchSelect(_)));
    assert!(state.branch_view.list.input.text.is_empty());
    assert_eq!(
        state.selected_branch().unwrap().id(),
        BranchId::Local("feature".into())
    );
    assert!(state
        .branch_view
        .entries
        .iter()
        .all(|branch| branch.remote.is_none()));
    assert!(state.toasts.first().is_some_and(|toast| {
        toast.kind == ToastKind::Error
            && toast
                .message
                .contains("Tracking branch feature was created")
            && toast.message.contains("disk full")
    }));
    assert_eq!(
        changes.pinned_branch_selection,
        Some(BranchId::Local("feature".into()))
    );

    let repo = changes.refresh_branch.take().expect("branch refresh");
    let previous_generation = state.branch_view.generation;
    let effects = refresh(&mut state, repo, false);
    assert_eq!(state.branch_view.generation, previous_generation + 1);
    let Some(Effect::LoadBranches {
        repo,
        cwd,
        generation,
    }) = effects.into_iter().next()
    else {
        panic!("no branches are loaded")
    };
    let refreshed = branches_event(
        repo,
        cwd.as_ref(),
        generation,
        herdr_kiosk::git::Listed {
            items: vec!["feature".into()],
            skipped_unsupported_refs: false,
        },
        None,
        herdr_kiosk::git::Listed {
            items: Vec::new(),
            skipped_unsupported_refs: false,
        },
        PathRules::Unix,
    );
    let mut refreshed_changes = settle(refreshed, &mut state);
    queue_filter(&mut state, refreshed_changes.pinned_branch_selection.take());

    assert_eq!(
        state.selected_branch().unwrap().id(),
        BranchId::Local("feature".into())
    );
    assert!(state.selected_branch().unwrap().remote.is_none());
}

#[test]
fn remote_merge_reapplies_filter_and_preserves_selection() {
    let mut state = state_with_branch(false);
    state.branch_view.merge_remote_snapshot(
        "upstream".into(),
        BranchEntry::build_remote("upstream", &["z-feature".into()], &["feature".into()]),
    );
    state.branch_view.list.input.text = "feature".into();
    state.branch_view.list.input.cursor = 7;
    state.branch_view.list.filtered = vec![(0, 0), (1, 0)];
    state.branch_view.list.selected = Some(1);
    state.branch_view.fetching_remote_repo = Some(path("/repo"));

    let generation = state.branch_view.generation;
    let mut changes = settle(
        AppEvent::GitFetchCompleted {
            remote: Some("origin".into()),
            branches: BranchEntry::build_remote(
                "origin",
                &["a-feature".into()],
                &["feature".into()],
            ),
            repo_path: path("/repo"),
            generation,
            error: None,
            is_final: false,
            skipped_unsupported_refs: false,
        },
        &mut state,
    );
    assert!(changes.branches_changed);
    assert_eq!(
        state.selected_branch().unwrap().name,
        "z-feature",
        "selection must remain safe while the async filter catches up"
    );
    let request = queue_filter(&mut state, changes.pinned_branch_selection.take()).unwrap();
    settle(answer_filter(request, &Matcher::default()), &mut state);

    assert_eq!(state.branch_view.list.input.text, "feature");
    assert_eq!(state.branch_view.list.filtered.len(), 3);
    assert_eq!(state.selected_branch().unwrap().name, "z-feature");
}

#[test]
fn streamed_remote_update_preserves_same_named_remote_selection_by_identity() {
    let mut state = state_with_branch(false);
    state.branch_view.entries[0].name = "main".into();
    state.branch_view.merge_remote_snapshot(
        "origin".into(),
        BranchEntry::build_remote("origin", &["feature".into()], &["main".into()]),
    );
    state.branch_view.merge_remote_snapshot(
        "upstream".into(),
        BranchEntry::build_remote("upstream", &["feature".into()], &["main".into()]),
    );
    state.branch_view.list.input.text = "feature".into();
    state.branch_view.list.input.cursor = 7;
    state.branch_view.list.filtered = vec![(1, 0), (2, 0)];
    state.branch_view.list.selected = Some(1);
    let expected = BranchId::Remote {
        remote: "upstream".into(),
        name: "feature".into(),
    };
    assert_eq!(state.selected_branch().unwrap().id(), expected);

    let generation = state.branch_view.generation;
    let mut changes = settle(
        AppEvent::RemoteBranchesLoaded {
            repo_path: path("/repo"),
            generation,
            remote: "origin".into(),
            branches: BranchEntry::build_remote(
                "origin",
                &["feature".into(), "fix".into()],
                &["main".into()],
            ),
            skipped_unsupported_refs: false,
        },
        &mut state,
    );
    assert_eq!(state.selected_branch().unwrap().id(), expected);
    let request = queue_filter(&mut state, changes.pinned_branch_selection.take()).unwrap();
    settle(answer_filter(request, &Matcher::default()), &mut state);

    assert_eq!(state.selected_branch().unwrap().id(), expected);
}

#[test]
fn stale_remote_and_fetch_events_are_dropped() {
    let mut state = state_with_branch(false);
    state.branch_view.fetching_remote_repo = Some(path("/repo"));
    let mut changes = TickChanges::default();
    let remote_branch = BranchEntry::build_remote("origin", &["remote".into()], &[]);
    let generation = state.branch_view.generation;

    for event in [
        AppEvent::RemoteBranchesLoaded {
            repo_path: path("/other"),
            generation,
            remote: "origin".into(),
            branches: remote_branch.clone(),
            skipped_unsupported_refs: false,
        },
        AppEvent::GitFetchCompleted {
            remote: Some("origin".into()),
            branches: remote_branch,
            repo_path: path("/other"),
            generation,
            error: Some("boom".into()),
            is_final: true,
            skipped_unsupported_refs: false,
        },
    ] {
        process_app_event(event, &mut state, &mut changes, 0);
    }

    assert_eq!(state.branch_view.entries.len(), 1);
    assert_eq!(state.branch_view.fetching_remote_repo, Some(path("/repo")));
    assert!(state.toasts.is_empty());
    assert!(!changes.branches_changed);
}

#[test]
fn unsupported_ref_warning_is_emitted_once_without_blanking_valid_branches() {
    let mut state = state_with_branch(false);
    let generation = state.branch_view.generation;
    let valid = state.branch_view.entries.clone();

    settle(
        AppEvent::BranchesLoaded {
            repo_path: path("/repo"),
            generation,
            branches: valid,
            worktrees: Vec::new(),
            skipped_unsupported_refs: true,
        },
        &mut state,
    );
    settle(
        AppEvent::RemoteBranchesLoaded {
            repo_path: path("/repo"),
            generation,
            remote: "origin".into(),
            branches: Vec::new(),
            skipped_unsupported_refs: true,
        },
        &mut state,
    );

    assert_eq!(state.branch_view.entries[0].name, "feature");
    assert_eq!(
        state
            .toasts
            .iter()
            .filter(|toast| toast.message == UNSUPPORTED_REF_WARNING)
            .count(),
        1
    );
}

#[test]
fn same_repo_reentry_drops_every_prior_visit_load_result() {
    let mut state = state_with_branch(false);
    state.branch_view.generation = 2;
    state.branch_view.open_worktree_load_state = OpenWorktreeLoadState::Loaded {
        repo_path: path("/repo"),
        generation: 2,
    };
    state.branch_view.fetching_remote_repo = Some(path("/repo"));
    let mut stale_branch = plain("stale");
    stale_branch.worktree_path = Some(path("/repo-stale"));
    let stale_remote = BranchEntry::build_remote("origin", &["remote".into()], &[]);
    let mut changes = TickChanges::default();

    for event in [
        AppEvent::BranchesLoaded {
            repo_path: path("/repo"),
            generation: 1,
            branches: vec![stale_branch],
            worktrees: Vec::new(),
            skipped_unsupported_refs: false,
        },
        AppEvent::RemoteBranchesLoaded {
            repo_path: path("/repo"),
            generation: 1,
            remote: "origin".into(),
            branches: stale_remote.clone(),
            skipped_unsupported_refs: false,
        },
        AppEvent::GitFetchCompleted {
            remote: Some("origin".into()),
            branches: stale_remote,
            repo_path: path("/repo"),
            generation: 1,
            error: Some("stale fetch".into()),
            is_final: true,
            skipped_unsupported_refs: false,
        },
        AppEvent::OpenWorktreesLoaded {
            repo_path: path("/repo"),
            generation: 1,
            worktrees: vec![worktree()],
        },
    ] {
        process_app_event(event, &mut state, &mut changes, 0);
    }

    assert_eq!(
        state
            .branch_view
            .entries
            .iter()
            .map(|branch| branch.name.as_str())
            .collect::<Vec<_>>(),
        ["feature"]
    );
    assert!(state.branch_view.entries[0].open_workspace_id.is_none());
    assert!(state.branch_view.remote_snapshots_are_empty());
    assert_eq!(state.branch_view.fetching_remote_repo, Some(path("/repo")));
    assert!(state.toasts.is_empty());
    assert!(!changes.branches_changed);
    assert!(changes.start_remote_loading.is_none());
}

#[test]
fn fetch_failure_toasts_are_deduplicated_per_remote() {
    let mut state = state_with_branch(false);
    state.branch_view.fetching_remote_repo = Some(path("/repo"));
    let generation = state.branch_view.generation;
    for message in ["first failure", "second failure"] {
        settle(
            AppEvent::GitFetchCompleted {
                remote: Some("origin".into()),
                branches: Vec::new(),
                repo_path: path("/repo"),
                generation,
                error: Some(message.into()),
                is_final: false,
                skipped_unsupported_refs: false,
            },
            &mut state,
        );
    }

    assert_eq!(state.toasts.len(), 1);
    assert!(state.toasts[0].message.contains("first failure"));
}

#[test]
fn final_fetch_for_current_repo_clears_indicator() {
    let mut state = state_with_branch(false);
    state.branch_view.fetching_remote_repo = Some(path("/repo"));
    let generation = state.branch_view.generation;

    settle(
        AppEvent::GitFetchCompleted {
            remote: None,
            branches: Vec::new(),
            repo_path: path("/repo"),
            generation,
            error: None,
            is_final: true,
            skipped_unsupported_refs: false,
        },
        &mut state,
    );

    assert!(state.branch_view.fetching_remote_repo.is_none());
}

#[test]
fn branch_git_failure_returns_to_repo_but_indicator_failure_does_not() {
    let mut state = state_with_branch(false);
    let generation = state.branch_view.generation;
    settle(
        AppEvent::OpenWorktreesFailed {
            repo_path: path("/repo"),
            generation,
            message: "indicator unavailable".into(),
        },
        &mut state,
    );
    assert!(matches!(state.mode, Mode::BranchSelect(_)));
    assert_eq!(state.toasts.len(), 1);

    settle(
        AppEvent::BranchLoadFailed {
            repo_path: path("/repo"),
            generation,
            message: "git unavailable".into(),
        },
        &mut state,
    );
    assert_eq!(state.mode, Mode::RepoSelect);
    assert_eq!(state.toasts.len(), 2);
}

#[test]
fn same_named_remote_branches_keep_distinct_identities() {
    let mut state = AppState::new(None);
    for remote in ["origin", "upstream"] {
        state.branch_view.merge_remote_snapshot(
            remote.into(),
            BranchEntry::build_remote(remote, &["feature".into()], &[]),
        );
    }

    assert_eq!(
        state
            .branch_view
            .entries
            .iter()
            .map(BranchEntry::id)
            .collect::<Vec<_>>(),
        [
            BranchId::Remote {
                remote: "origin".into(),
                name: "feature".into(),
            },
            BranchId::Remote {
                remote: "upstream".into(),
                name: "feature".into(),
            },
        ]
    );
    assert_eq!(
        state
            .branch_view
            .entries
            .iter()
            .map(BranchEntry::display_name)
            .collect::<Vec<_>>(),
        ["origin/feature", "upstream/feature"]
    );
}

#[test]
fn local_branch_shadows_same_name_from_every_remote() {
    let mut state = AppState::new(None);
    state.branch_view.entries =
        BranchEntry::build_local(&repo("/repo"), &["feature".into()], None, None, PathRules::Unix);
    for remote in ["origin", "upstream"] {
        state.branch_view.merge_remote_snapshot(
            remote.into(),
            BranchEntry::build_remote(remote, &["feature".into()], &[]),
        );
    }

    assert_eq!(state.branch_view.entries.len(), 1);
    assert_eq!(
        state.branch_view.entries[0].id(),
        BranchId::Local("feature".into())
    );
}

#[test]
fn remote_merges_are_deduplicated_and_sorted_after_locals() {
    let mut state = AppState::new(None);
    state.branch_view.entries = BranchEntry::build_local(
        &repo("/repo"),
        &["z-local".into(), "main".into()],
        Some("main"),
        None,
        PathRules::Unix,
    );
    state.branch_view.merge_remote_snapshot(
        "upstream".into(),
        BranchEntry::build_remote(
            "upstream",
            &["z-local".into(), "z-remote".into()],
            &["z-local".into(), "main".into()],
        ),
    );
    state.branch_view.merge_remote_snapshot(
        "origin".into(),
        BranchEntry::build_remote(
            "origin",
            &["a-remote".into(), "z-remote".into()],
            &["z-local".into(), "main".into()],
        ),
    );

    assert_eq!(
        state
            .branch_view
            .entries
            .iter()
            .map(|entry| (entry.name.as_str(), entry.remote.as_deref()))
            .collect::<Vec<_>>(),
        [
            ("main", None),
            ("z-local", None),
            ("a-remote", Some("origin")),
            ("z-remote", Some("origin")),
            ("z-remote", Some("upstream")),
        ]
    );
}

#[test]
fn navigation_after_typing_wins_over_the_pending_filter_selection() {
    let keys = KeysConfig::default();
    let mut state = state_with_branch(false);
    state.branch_view.entries = ["alpha", "beta", "gamma"].map(plain).into_iter().collect();
    state.branch_view.list = SearchableList::new(3);
    process_action(Action::Insert('a'), &mut state, &keys, &around());
    process_action(Action::MoveSelection(1), &mut state, &keys, &around());
    let generation = state.branch_view.filter_generation;
    let branch = |name: &str| FilterKey::Branch(BranchId::Local(name.into()));
    settle(
        AppEvent::FilterCompleted {
            target: FilterTarget::Branches,
            generation,
            matches: vec![(branch("alpha"), 3), (branch("beta"), 2), (branch("gamma"), 1)],
            selected: None,
        },
        &mut state,
    );
    assert_eq!(state.selected_branch().unwrap().name, "beta");
}

#[test]
fn taking_a_snapshot_in_again_changes_nothing() {
    let mut view = BranchViewState::default();
    view.entries = BranchEntry::build_local(
        &repo("/repo"),
        &["main".into(), "feature".into()],
        Some("main"),
        None,
        PathRules::Unix,
    );
    let incoming = || {
        BranchEntry::build_remote("origin", &["topic".into(), "feature".into()], &Vec::new())
    };
    view.merge_remote_snapshot("origin".into(), incoming());
    let names = |view: &BranchViewState| -> Vec<String> {
        view.entries.iter().map(BranchEntry::display_name).collect()
    };
    let once = names(&view);
    assert_eq!(once, ["main", "feature", "origin/topic"]);
    view.merge_remote_snapshot("origin".into(), incoming());
    assert_eq!(names(&view), once);
}

#[test]
fn failures_and_left_out_names_are_told_once() {
    let mut view = BranchViewState::default();
    assert!(view.record_fetch_warning("origin".into()));
    assert!(!view.record_fetch_warning("origin".into()));
    assert!(view.record_fetch_warning("fork".into()));
    view.clear_remote_snapshots();
    assert!(!view.record_fetch_warning("origin".into()));
    view.reset_remotes();
    assert!(view.record_fetch_warning("origin".into()));

    assert!(!view.should_warn_unsupported_refs(1, false));
    assert!(view.should_warn_unsupported_refs(1, true));
    assert!(!view.should_warn_unsupported_refs(1, true));
    assert!(view.should_warn_unsupported_refs(2, true));
    assert!(view.should_warn_unsupported_refs(1, true));
}

#[test]
fn a_text_stands_for_a_local_branch() {
    assert_eq!(BranchId::from("main"), BranchId::Local("main".into()));
}
