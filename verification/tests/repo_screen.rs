use herdr_kiosk::app::process_app_event;
use herdr_kiosk::collisions::{collision_disambiguators, collision_disambiguators_with_case};
use herdr_kiosk::config::{OnOpenConfig, SortOrder};
use herdr_kiosk::effects::{Effect, TickChanges};
use herdr_kiosk::event::{AppEvent, FilterKey, FilterTarget};
use herdr_kiosk::git::repo::Repo;
use herdr_kiosk::herdr::{
    HerdrError, PaneInfo, WorkspaceCreateResponse, WorkspaceInfo, WorkspaceWorktreeInfo,
    WorktreeOpenTarget,
};
use herdr_kiosk::input::SearchableList;
use herdr_kiosk::path::{PathBuf, PathRules};
use herdr_kiosk::recency::RecencyKey;
use herdr_kiosk::screens::repo::{
    apply_changes, apply_default_selection, open_selected, sort_entries, RepoEntry,
};
use herdr_kiosk::spawn::{Call, Next, Operation, Reply};
use herdr_kiosk::state::{AppState, Mode};

fn repo(path: &str) -> Repo {
    Repo {
        name: path.rsplit('/').next().unwrap().to_string(),
        path: PathBuf::new(path),
        is_git: true,
        worktrees: Vec::new(),
    }
}

fn rows(paths: &[&str]) -> Vec<RepoEntry> {
    paths.iter().map(|path| RepoEntry::new(repo(path))).collect()
}

fn state_with_repo() -> AppState {
    let mut state = AppState::new(None);
    state.repo_view.entries.push(RepoEntry::new(repo("/repo")));
    state.repo_view.list = SearchableList::new(1);
    state
}

fn state_with_folder() -> AppState {
    let mut state = state_with_repo();
    state.repo_view.entries[0].repo.is_git = false;
    state
}

#[test]
fn tests_collision_disambiguates_two_equal_names_with_shortest_parent_suffix() {
    let repos = [repo("foo/bar/baz"), repo("qux/bar/baz")];
    assert_eq!(
        collision_disambiguators(&repos, PathRules::Unix),
        [Some("foo/bar".into()), Some("qux/bar".into())]
    );
}

#[test]
fn tests_collision_disambiguates_three_places_independently() {
    let repos = [
        repo("/root/a/shared/demo"),
        repo("/root/b/shared/demo"),
        repo("/root/unique/demo"),
    ];
    assert_eq!(
        collision_disambiguators(&repos, PathRules::Unix),
        [
            Some("…/a/shared".into()),
            Some("…/b/shared".into()),
            Some("…/unique".into()),
        ]
    );
}

#[test]
fn tests_collision_handles_parents_that_also_collide() {
    let repos = [repo("/one/team/api"), repo("/two/team/api")];
    assert_eq!(
        collision_disambiguators(&repos, PathRules::Unix),
        [Some("one/team".into()), Some("two/team".into())]
    );
}

#[test]
fn tests_collision_handles_repos_nested_below_search_roots() {
    let repos = [
        repo("/search/client/ios/app"),
        repo("/search/client/web/app"),
        repo("/search/direct/app"),
        repo("/search/other"),
    ];
    assert_eq!(
        collision_disambiguators(&repos, PathRules::Unix),
        [
            Some("…/ios".into()),
            Some("…/web".into()),
            Some("…/direct".into()),
            None,
        ]
    );
}

#[test]
fn tests_collision_leaves_unique_names_unchanged() {
    let repos = [repo("/one/alpha"), repo("/two/beta")];
    assert_eq!(collision_disambiguators(&repos, PathRules::Unix), [None, None]);
}

#[test]
fn tests_collision_windows_mode_is_case_insensitive_and_uses_forward_slashes() {
    let repos = [repo("C:/One/Team/API"), repo("c:/two/team/api")];
    assert_eq!(
        collision_disambiguators_with_case(&repos, true, PathRules::Unix),
        [Some("…/One/Team".into()), Some("…/two/team".into())]
    );
}

#[test]
fn tests_current_repo_selection_prefers_the_deepest_containing_repo() {
    let mut state = AppState::new(Some(PathBuf::new("/work/outer/inner/src")));
    state.repo_view.entries = rows(&["/work/outer", "/work/outer/inner"]);
    state.repo_view.list = SearchableList::new(2);
    state.repo_view.apply_current_selection();
    assert_eq!(state.repo_view.list.selected, Some(1));
}

#[test]
fn alphabetical_sort_is_unchanged_by_populated_recency_state() {
    let mut state = AppState::new(None);
    state.repo_view.entries = rows(&["/repos/zulu", "/repos/Alpha", "/other/alpha", "/repos/beta"]);
    state.repo_view.list = SearchableList::new(state.repo_view.entries.len());
    sort_entries(&mut state);
    let baseline = state.repo_view.entries.clone();

    state
        .recency
        .record(RecencyKey::repo(&PathBuf::new("/repos/zulu")), PathRules::Unix);
    state
        .recency
        .record(RecencyKey::repo(&PathBuf::new("/repos/beta")), PathRules::Unix);
    state.repo_view.entries.reverse();
    sort_entries(&mut state);

    assert_eq!(state.sort_order, SortOrder::Alphabetical);
    assert_eq!(state.repo_view.entries, baseline);
}

#[test]
fn recency_resting_sort_uses_rank_then_alphabetical_fallback() {
    let mut state = AppState::new(None);
    state.sort_order = SortOrder::Recency;
    state.repo_view.entries = rows(&[
        "/repos/delta",
        "/repos/alpha",
        "/repos/charlie",
        "/repos/bravo",
    ]);
    state.repo_view.list = SearchableList::new(state.repo_view.entries.len());
    state
        .recency
        .record(RecencyKey::repo(&PathBuf::new("/repos/alpha")), PathRules::Unix);
    state
        .recency
        .record(RecencyKey::repo(&PathBuf::new("/repos/delta")), PathRules::Unix);

    sort_entries(&mut state);

    assert_eq!(
        state
            .repo_view
            .entries
            .iter()
            .map(|entry| entry.repo.name.as_str())
            .collect::<Vec<_>>(),
        ["delta", "alpha", "bravo", "charlie"]
    );
}

#[test]
fn recency_defaults_to_previous_repo_while_alphabetical_keeps_current_repo() {
    let entries = || rows(&["/work/alpha", "/work/beta"]);
    let mut alphabetical = AppState::new(Some(PathBuf::new("/work/beta/src")));
    alphabetical.repo_view.entries = entries();
    alphabetical.repo_view.list = SearchableList::new(2);
    sort_entries(&mut alphabetical);
    apply_default_selection(&mut alphabetical);
    assert_eq!(alphabetical.selected_repo().unwrap().repo.name, "beta");

    let mut recency = AppState::new(Some(PathBuf::new("/work/beta/src")));
    recency.sort_order = SortOrder::Recency;
    recency.repo_view.entries = entries();
    recency.repo_view.list = SearchableList::new(2);
    recency
        .recency
        .record(RecencyKey::repo(&PathBuf::new("/work/alpha")), PathRules::Unix);
    recency
        .recency
        .record(RecencyKey::repo(&PathBuf::new("/work/beta")), PathRules::Unix);
    sort_entries(&mut recency);
    apply_default_selection(&mut recency);
    assert_eq!(recency.selected_repo().unwrap().repo.name, "alpha");
}

#[test]
fn tests_current_logical_selection_survives_current_generation_filter_results() {
    let mut state = AppState::new(None);
    state.repo_view.entries = rows(&["/alpha", "/beta", "/gamma"]);
    state.repo_view.list = SearchableList::new(3);
    state.repo_view.list.selected = Some(1);
    state.repo_view.filter_generation = 7;
    process_app_event(
        AppEvent::FilterCompleted {
            target: FilterTarget::Repos,
            generation: 7,
            matches: vec![
                (FilterKey::Repo(PathBuf::new("/gamma")), 3),
                (FilterKey::Repo(PathBuf::new("/beta")), 2),
                (FilterKey::Repo(PathBuf::new("/alpha")), 1),
            ],
            selected: None,
        },
        &mut state,
        &mut TickChanges::default(),
        0,
    );
    assert_eq!(state.selected_repo().unwrap().repo.name, "beta");
}

#[test]
fn opening_transitions_to_loading_and_dispatches_through_mock_provider() {
    let mut state = state_with_repo();

    let effect = open_selected(&mut state, true);

    assert_eq!(
        state.mode,
        Mode::Loading {
            message: "Opening repo…".into(),
            branch: None,
        }
    );
    let Some(Effect::OpenRepo { repo_path }) = effect else {
        panic!("unexpected {effect:?}");
    };
    let Next::Ask(operation, call) = Operation::open_repo(repo_path, OnOpenConfig::default()) else {
        panic!("nothing was asked");
    };
    assert_eq!(
        call,
        Call::WorktreeOpen {
            cwd: PathBuf::new("/repo"),
            target: WorktreeOpenTarget::Path(PathBuf::new("/repo")),
            focus: true,
        }
    );
    let Next::Done(finished) = operation.resume(Reply::WorktreeOpen(Err(
        HerdrError::WorktreeOpenFailed("boom".into()),
    ))) else {
        panic!("not finished");
    };
    let event = finished.into_event();
    assert!(matches!(
        &event,
        AppEvent::RepoOpenFailed(message) if message.contains("boom")
    ));
    process_app_event(event, &mut state, &mut TickChanges::default(), 0);
    assert_eq!(state.mode, Mode::RepoSelect);
    assert!(state.toasts[0].message.contains("boom"));
}

fn open_folder(state: &mut AppState) -> (Operation, Call) {
    let effect = open_selected(state, true);
    let Some(Effect::OpenFolder { path }) = effect else {
        panic!("unexpected {effect:?}");
    };
    match Operation::open_folder(path, PathRules::Unix) {
        Next::Ask(operation, call) => (operation, call),
        other => panic!("unexpected {other:?}"),
    }
}

#[test]
fn opening_matching_plain_folder_focuses_existing_workspace() {
    let mut state = state_with_folder();
    let (operation, call) = open_folder(&mut state);
    assert_eq!(call, Call::PaneList);
    let Next::Ask(operation, call) = operation.resume(Reply::PaneList(Ok(vec![PaneInfo {
        workspace_id: "w_folder".into(),
        cwd: Some("/repo".into()),
        foreground_cwd: Some("/unrelated".into()),
    }]))) else {
        panic!("nothing was asked");
    };
    assert_eq!(
        call,
        Call::WorkspaceFocus {
            workspace_id: "w_folder".into(),
        }
    );
    let Next::Done(finished) = operation.resume(Reply::WorkspaceFocus(Ok(()))) else {
        panic!("not finished");
    };
    assert!(matches!(
        finished.into_event(),
        AppEvent::RepoOpened { warning: None }
    ));
}

#[test]
fn opening_unmatched_plain_folder_creates_focused_workspace() {
    let mut state = state_with_folder();
    let (operation, call) = open_folder(&mut state);
    assert_eq!(call, Call::PaneList);
    let Next::Ask(operation, call) = operation.resume(Reply::PaneList(Ok(Vec::new()))) else {
        panic!("nothing was asked");
    };
    assert_eq!(
        call,
        Call::WorkspaceCreate {
            cwd: PathBuf::new("/repo"),
            focus: true,
        }
    );
    let Next::Done(finished) =
        operation.resume(Reply::WorkspaceCreate(Ok(WorkspaceCreateResponse {
            workspace_id: Some("w_new".into()),
            warning: None,
        })))
    else {
        panic!("not finished");
    };
    assert!(matches!(
        finished.into_event(),
        AppEvent::RepoOpened { warning: None }
    ));
}

#[test]
fn open_indicators_use_workspaces_for_git_and_pane_cwds_for_folders() {
    let mut state = state_with_repo();
    let mut folder = repo("/folder");
    folder.is_git = false;
    state.repo_view.entries.push(RepoEntry::new(folder));
    state.repo_view.list = SearchableList::new(2);

    process_app_event(
        AppEvent::OpenWorkspacesLoaded {
            workspaces: vec![WorkspaceInfo {
                workspace_id: "w_repo".into(),
                label: "repo".into(),
                focused: false,
                agent_status: None,
                branch: None,
                last_focused_unix_ms: None,
                worktree: Some(WorkspaceWorktreeInfo {
                    repo_root: "/repo".into(),
                    repo_name: "repo".into(),
                }),
            }],
        },
        &mut state,
        &mut TickChanges::default(),
        0,
    );
    process_app_event(
        AppEvent::OpenFolderPanesLoaded {
            panes: vec![PaneInfo {
                workspace_id: "w_folder".into(),
                cwd: Some("/folder".into()),
                foreground_cwd: Some("/repo".into()),
            }],
        },
        &mut state,
        &mut TickChanges::default(),
        0,
    );

    assert!(state.repo_view.entries[0].is_open);
    assert!(state.repo_view.entries[1].is_open);
}

#[test]
fn opening_without_herdr_keeps_picker_usable_and_shows_error() {
    let mut state = state_with_repo();
    assert_eq!(open_selected(&mut state, false), None);
    assert_eq!(state.mode, Mode::RepoSelect);
    assert_eq!(state.toasts[0].message, "not running inside herdr");
}

#[test]
fn found_repositories_are_sorted_and_told_apart() {
    let mut state = AppState::new(None);
    let mut changes = TickChanges::default();
    for path in ["/two/api", "/one/api", "/one/api"] {
        process_app_event(
            AppEvent::ReposFound {
                repo: repo(path),
                canonical_path: PathBuf::new(path),
            },
            &mut state,
            &mut changes,
            0,
        );
    }
    process_app_event(AppEvent::ScanComplete, &mut state, &mut changes, 0);
    apply_changes(&mut state, &mut changes).unwrap();
    assert_eq!(
        state
            .repo_view
            .entries
            .iter()
            .map(RepoEntry::display_name)
            .collect::<Vec<_>>(),
        ["api (one)", "api (two)"]
    );
    assert!(!state.repo_view.loading);
}

fn windows_repo(path: &str) -> Repo {
    Repo {
        name: path.rsplit('\\').next().unwrap().to_string(),
        path: PathBuf::new(path),
        is_git: true,
        worktrees: Vec::new(),
    }
}

#[test]
fn names_that_differ_by_case_collide_on_windows_only() {
    let listed = |rules: PathRules| {
        let mut state = AppState::new(None);
        state.use_path_rules(rules);
        for path in [r"C:\one\Demo", r"D:\two\demo"] {
            state.repo_view.entries.push(RepoEntry::new(windows_repo(path)));
        }
        state.repo_view.list = SearchableList::new(2);
        assert!(state.repo_view.apply_collisions());
        let mut labels: Vec<_> = state
            .repo_view
            .entries
            .iter()
            .map(|entry| entry.disambiguator.clone())
            .collect();
        labels.sort();
        labels
    };
    assert_eq!(
        listed(PathRules::Windows),
        [Some("…/one".to_string()), Some("…/two".to_string())]
    );
    assert_eq!(listed(PathRules::Unix), [None, None]);
}

#[test]
fn a_drive_counts_as_a_folder() {
    let repos = [windows_repo(r"C:\demo"), windows_repo(r"D:\demo")];
    assert_eq!(
        collision_disambiguators(&repos, PathRules::Windows),
        [Some("C:".into()), Some("D:".into())]
    );
}
