use herdr_kiosk::branches::BranchEntry;
use herdr_kiosk::config::{OnOpenConfig, OnOpenPaneConfig, OnOpenPaneDirection, Ratio};
use herdr_kiosk::event::{AppEvent, WorktreeRemovalOutcome};
use herdr_kiosk::git::provider::GitError;
use herdr_kiosk::git::repo::{Repo, ScanWarning, Worktree};
use herdr_kiosk::git::Listed;
use herdr_kiosk::herdr::{
    HerdrError, OpenedWorktree, PaneSplitResponse, WorktreeInfo, WorktreeListResponse,
    WorktreeOpenResponse,
};
use herdr_kiosk::path::{PathBuf, PathRules};
use herdr_kiosk::spawn::{
    branches_event, branches_failed, combine_warnings, fetch_event, fetch_over,
    friendly_branch_error, is_wrong_route_failure, open_worktrees_event, panes_event,
    remote_branches_event, remotes_failed, scan_failed, validation_event, workspaces_event,
    BranchOpenRoute, Call, EventSender, FetchBatch, FetchDeduplicator, FetchResult, Next,
    Operation, Reply,
};

fn run(next: Next, replies: Vec<Reply>) -> (Vec<Call>, AppEvent) {
    let mut calls = Vec::new();
    let mut replies = replies.into_iter();
    let mut next = next;
    loop {
        match next {
            Next::Ask(operation, call) => {
                calls.push(call);
                next = operation.resume(replies.next().unwrap());
            }
            Next::Done(finished) => {
                assert!(replies.next().is_none());
                return (calls, finished.into_event());
            }
        }
    }
}

fn listed(names: &[&str]) -> Listed<String> {
    Listed {
        items: names.iter().map(|name| name.to_string()).collect(),
        skipped_unsupported_refs: false,
    }
}

fn names(branches: &[BranchEntry]) -> Vec<&str> {
    branches.iter().map(|branch| branch.name.as_str()).collect()
}

#[test]
fn event_sender_stops_after_cancellation() {
    let mut sender = EventSender::new();
    assert!(sender.send(AppEvent::ReposFound {
        repo: Repo {
            name: "repo".into(),
            path: PathBuf::new("/repo"),
            is_git: true,
            worktrees: Vec::new(),
        },
        canonical_path: PathBuf::new("/repo"),
    }));
    sender.cancel();
    assert!(sender.is_cancelled());
    assert!(!sender.send(AppEvent::ScanWarning(ScanWarning {
        path: PathBuf::new(""),
        message: "cancelled".into(),
    })));
    assert!(sender.receive().is_some());
    assert!(sender.receive().is_none());
}

#[test]
fn a_closed_sender_takes_nothing() {
    let mut sender = EventSender::new();
    sender.close();
    assert!(!sender.send(AppEvent::ScanComplete));
    assert!(!sender.is_cancelled());
}

fn on_open_config() -> OnOpenConfig {
    OnOpenConfig {
        panes: vec![
            OnOpenPaneConfig {
                command: "hx".into(),
                direction: OnOpenPaneDirection::Right,
                ratio: Some(Ratio {
                    bits: 0.4f32.to_bits(),
                }),
            },
            OnOpenPaneConfig {
                command: "cargo test".into(),
                direction: OnOpenPaneDirection::Down,
                ratio: None,
            },
        ],
    }
}

fn open_reply(already_open: bool) -> Reply {
    Reply::WorktreeOpen(Ok(WorktreeOpenResponse {
        opened: Some(OpenedWorktree {
            workspace_id: "w_1".into(),
            root_pane_id: "p_root".into(),
            path: "/repo".into(),
        }),
        already_open: Some(already_open),
        warning: None,
    }))
}

fn split_reply(pane_id: &str) -> Reply {
    Reply::PaneSplit(Ok(PaneSplitResponse {
        pane_id: pane_id.into(),
    }))
}

fn on_open_replies() -> Vec<Reply> {
    vec![
        split_reply("p_2"),
        Reply::PaneRun(Ok(())),
        split_reply("p_3"),
        Reply::PaneRun(Ok(())),
    ]
}

fn pane_calls(calls: &[Call]) -> usize {
    calls
        .iter()
        .filter(|call| matches!(call, Call::PaneSplit { .. } | Call::PaneRun { .. }))
        .count()
}

#[test]
fn on_open_splits_then_runs_each_configured_pane_in_order() {
    let mut replies = vec![open_reply(false)];
    replies.extend(on_open_replies());
    let (calls, event) = run(
        Operation::open_repo(PathBuf::new("/repo"), on_open_config()),
        replies,
    );
    assert!(matches!(event, AppEvent::RepoOpened { warning: None }));
    assert_eq!(
        calls[1..],
        [
            Call::PaneSplit {
                pane_id: "p_root".into(),
                direction: OnOpenPaneDirection::Right,
                new_fraction: Some(Ratio {
                    bits: 0.4f32.to_bits()
                }),
                cwd: PathBuf::new("/repo"),
                focus: false,
            },
            Call::PaneRun {
                pane_id: "p_2".into(),
                command: "hx".into(),
            },
            Call::PaneSplit {
                pane_id: "p_root".into(),
                direction: OnOpenPaneDirection::Down,
                new_fraction: None,
                cwd: PathBuf::new("/repo"),
                focus: false,
            },
            Call::PaneRun {
                pane_id: "p_3".into(),
                command: "cargo test".into(),
            },
        ]
    );
}

#[test]
fn repo_open_applies_on_open_only_for_a_new_workspace() {
    for already_open in [false, true] {
        let mut replies = vec![open_reply(already_open)];
        if !already_open {
            replies.extend(on_open_replies());
        }
        let (calls, event) = run(
            Operation::open_repo(PathBuf::new("/repo"), on_open_config()),
            replies,
        );
        assert!(matches!(event, AppEvent::RepoOpened { warning: None }));
        assert_eq!(
            pane_calls(&calls),
            if already_open { 0 } else { 4 },
            "already_open={already_open}"
        );
    }
}

#[test]
fn branch_open_applies_on_open_only_for_a_new_workspace() {
    for already_open in [false, true] {
        let mut replies = vec![open_reply(already_open)];
        if !already_open {
            replies.extend(on_open_replies());
        }
        let (calls, event) = run(
            Operation::open_branch(
                PathBuf::new("/repo"),
                "main".into(),
                true,
                on_open_config(),
            ),
            replies,
        );
        assert!(matches!(event, AppEvent::RepoOpened { warning: None }));
        assert_eq!(
            pane_calls(&calls),
            if already_open { 0 } else { 4 },
            "already_open={already_open}"
        );
    }
}

#[test]
fn on_open_failures_warn_without_replacing_open_success() {
    let (_, event) = run(
        Operation::open_repo(PathBuf::new("/repo"), on_open_config()),
        vec![
            open_reply(false),
            Reply::PaneSplit(Err(HerdrError::Other {
                code: "pane_split_failed".into(),
                message: "too small".into(),
            })),
            split_reply("p_3"),
            Reply::PaneRun(Err(HerdrError::Other {
                code: "pane_run_failed".into(),
                message: "shell closed".into(),
            })),
        ],
    );
    let AppEvent::RepoOpened {
        warning: Some(warning),
    } = event
    else {
        panic!("workspace open did not report success with a warning")
    };
    assert!(warning.starts_with("on_open: "));
    assert!(warning.contains("pane 1 split failed"));
    assert!(warning.contains("pane 2 run failed"));
}

#[test]
fn branch_loading_uses_a_fresh_worktree_listing() {
    let event = branches_event(
        Repo {
            name: "repo".into(),
            path: PathBuf::new("/repo"),
            is_git: true,
            worktrees: Vec::new(),
        },
        Some(&PathBuf::new("/repo-feature/src")),
        7,
        listed(&["main", "feature"]),
        Some("main"),
        Listed {
            items: vec![
                Worktree {
                    path: PathBuf::new("/repo"),
                    branch: Some("main".into()),
                },
                Worktree {
                    path: PathBuf::new("/repo-feature"),
                    branch: Some("feature".into()),
                },
            ],
            skipped_unsupported_refs: false,
        },
        PathRules::Unix,
    );
    let AppEvent::BranchesLoaded {
        repo_path,
        generation,
        branches,
        worktrees,
        ..
    } = event
    else {
        panic!("branches were not loaded")
    };
    assert_eq!(repo_path, PathBuf::new("/repo"));
    assert_eq!(generation, 7);
    assert_eq!(worktrees.len(), 2);
    let feature = branches
        .iter()
        .find(|branch| branch.name == "feature")
        .unwrap();
    assert_eq!(
        feature.worktree_path,
        Some(PathBuf::new("/repo-feature"))
    );
    assert!(feature.is_current);
}

#[test]
fn remote_branch_loading_streams_each_remote_with_repo_scope() {
    let events = [("origin", vec!["main", "one"]), ("upstream", vec!["two"])].map(
        |(remote, branches)| {
            remote_branches_event(
                PathBuf::new("/repo"),
                7,
                remote.into(),
                &vec!["main".into()],
                Ok(listed(&branches)),
            )
        },
    );
    for (event, expected_remote, expected) in
        [(&events[0], "origin", "one"), (&events[1], "upstream", "two")]
    {
        assert!(matches!(
            event,
            AppEvent::RemoteBranchesLoaded { repo_path, generation, remote, branches, .. }
                if *repo_path == PathBuf::new("/repo")
                    && *generation == 7
                    && remote == expected_remote
                    && names(branches) == [expected]
        ));
    }
}

#[test]
fn git_fetch_streams_completions_and_marks_exactly_one_final() {
    let mut deduplicator = FetchDeduplicator::default();
    let repo = PathBuf::new("/repo");
    let remotes = deduplicator.claim_all(&repo, &vec!["origin".into(), "upstream".into()], PathRules::Unix);
    assert_eq!(remotes, ["origin", "upstream"]);
    let mut batch = FetchBatch {
        remaining: remotes.len(),
    };
    let events: Vec<AppEvent> = remotes
        .into_iter()
        .map(|remote| {
            deduplicator.release(&repo, &remote, PathRules::Unix);
            let is_final = batch.finish_one();
            let branches = if remote == "origin" { "one" } else { "two" };
            fetch_event(
                PathBuf::new("/repo"),
                7,
                remote,
                &Vec::new(),
                FetchResult::Fetched(listed(&[branches])),
                is_final,
            )
        })
        .collect();
    assert_eq!(batch, FetchBatch { remaining: 0 });
    let mut larger = FetchBatch { remaining: 3 };
    assert_eq!([(); 3].map(|()| larger.finish_one()), [false, false, true]);
    for (event, expected_remote, expected) in
        [(&events[0], "origin", "one"), (&events[1], "upstream", "two")]
    {
        assert!(matches!(
            event,
            AppEvent::GitFetchCompleted { remote: Some(remote), branches, error: None, .. }
                if remote == expected_remote && names(branches) == [expected]
        ));
    }
    assert_eq!(
        events
            .iter()
            .filter(|event| matches!(event, AppEvent::GitFetchCompleted { is_final: true, .. }))
            .count(),
        1
    );
    assert!(deduplicator.in_flight.is_empty());
}

#[test]
fn rapid_reentry_does_not_start_a_duplicate_in_flight_fetch() {
    let mut deduplicator = FetchDeduplicator::default();
    let repo = PathBuf::new("/repo");
    assert!(deduplicator.claim(&repo, "origin", PathRules::Unix));
    assert!(!deduplicator.claim(&repo, "origin", PathRules::Unix));
    assert!(deduplicator
        .claim_all(&repo, &vec!["origin".into()], PathRules::Unix)
        .is_empty());
    assert!(matches!(
        fetch_over(PathBuf::new("/repo"), 8, None),
        AppEvent::GitFetchCompleted {
            generation: 8,
            remote: None,
            error: None,
            is_final: true,
            ..
        }
    ));
    deduplicator.release(&repo, "origin", PathRules::Unix);
    assert!(deduplicator.claim(&repo, "origin", PathRules::Unix));
}

#[test]
fn prune_failure_after_removal_reports_success_with_warning() {
    let (calls, event) = run(
        Operation::remove_worktree(
            PathBuf::new("/repo"),
            "feature".into(),
            PathBuf::new("/repo-feature"),
            false,
            true,
            PathRules::Unix,
        ),
        vec![
            Reply::WorktreeList(Ok(WorktreeListResponse {
                worktrees: vec![WorktreeInfo {
                    path: "/repo-feature".into(),
                    branch: Some("feature".into()),
                    open_workspace_id: None,
                }],
            })),
            Reply::RemoveCheckout(Ok(())),
            Reply::PruneWorktrees(Err(GitError::Other("prune broke".into()))),
        ],
    );
    assert_eq!(calls.len(), 3);
    assert!(matches!(
        event,
        AppEvent::WorktreeRemovalFinished {
            outcome: WorktreeRemovalOutcome::Removed { warning: Some(message) },
            ..
        } if message.contains("prune broke")
    ));
}

#[test]
fn failures_of_the_background_work_become_events() {
    let repo = || PathBuf::new("/repo");
    assert!(matches!(
        branches_failed(repo(), 1, "no git"),
        AppEvent::BranchLoadFailed { message, .. } if message.contains("no git")
    ));
    assert!(matches!(
        remotes_failed(repo(), 1, "no remotes"),
        AppEvent::RemoteBranchLoadFailed { message, .. } if message.contains("no remotes")
    ));
    assert!(matches!(
        remote_branches_event(repo(), 1, "origin".into(), &Vec::new(), Err("gone".into())),
        AppEvent::RemoteBranchLoadFailed { message, .. } if message.contains("gone")
    ));
    assert!(matches!(
        fetch_event(repo(), 1, "origin".into(), &Vec::new(), FetchResult::Failed("x".into()), true),
        AppEvent::GitFetchCompleted { error: Some(_), is_final: true, .. }
    ));
    assert!(matches!(
        open_worktrees_event(repo(), 1, Err(HerdrError::UiBusy("later".into()))),
        AppEvent::OpenWorktreesFailed { .. }
    ));
    assert!(matches!(
        workspaces_event(Err(HerdrError::UiBusy("later".into()))),
        AppEvent::OpenWorkspacesFailed(_)
    ));
    assert!(matches!(
        panes_event(Err(HerdrError::UiBusy("later".into()))),
        AppEvent::OpenFolderPanesFailed(_)
    ));
    assert!(matches!(
        validation_event(repo(), "x".into(), Ok(false)),
        AppEvent::BranchNameValidated { valid: false, error: None, .. }
    ));
    assert!(matches!(
        validation_event(repo(), "x".into(), Err("no git".into())),
        AppEvent::BranchNameValidated { valid: false, error: Some(_), .. }
    ));
    assert!(matches!(
        scan_failed(repo(), "denied"),
        AppEvent::ScanWarning(warning) if warning.path == repo()
    ));
}

#[test]
fn warnings_and_branch_errors_are_worded() {
    assert_eq!(combine_warnings(None, None), None);
    assert_eq!(
        combine_warnings(Some("a".into()), None).as_deref(),
        Some("a")
    );
    assert!(combine_warnings(Some("a".into()), Some("b".into()))
        .is_some_and(|text| text.contains('a') && text.contains('b')));
    let busy = HerdrError::WorktreeOperationInProgress("raw".into());
    assert!(friendly_branch_error(&busy).contains("already in progress"));
    assert!(is_wrong_route_failure(
        BranchOpenRoute::Open,
        &HerdrError::WorktreeNotFound("gone".into())
    ));
    assert!(!is_wrong_route_failure(BranchOpenRoute::Open, &busy));
}
