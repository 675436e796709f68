use herdr_kiosk::app::{process_action, process_app_event, Surroundings};
use herdr_kiosk::branches::BranchEntry;
use herdr_kiosk::config::keys::KeysConfig;
use herdr_kiosk::config::OnOpenConfig;
use herdr_kiosk::effects::{Effect, TickChanges};
use herdr_kiosk::event::{AppEvent, FilterKey, FilterTarget};
use herdr_kiosk::git::repo::Repo;
use herdr_kiosk::herdr::{OpenedWorktree, WorktreeCreateResponse};
use herdr_kiosk::input::SearchableList;
use herdr_kiosk::keyboard::Action;
use herdr_kiosk::path::{PathBuf, PathRules};
use herdr_kiosk::screens::branch::{BranchContext, OpenWorktreeLoadState};
use herdr_kiosk::screens::new_branch::{
    cancel, create, route, start, BaseBranchSelection, NewBranchRoute,
};
use herdr_kiosk::screens::repo::RepoEntry;
use herdr_kiosk::spawn::{validation_event, Call, Next, Operation, Reply};
use herdr_kiosk::state::{AppState, Mode};

fn path(text: &str) -> PathBuf {
    PathBuf::new(text)
}

fn repo() -> Repo {
    Repo {
        name: "repo".into(),
        path: path("/repo"),
        is_git: true,
        worktrees: Vec::new(),
    }
}

fn context() -> BranchContext {
    BranchContext {
        repo_path: path("/repo"),
        repo_name: "repo".into(),
    }
}

fn plain(name: &str) -> BranchEntry {
    BranchEntry {
        name: name.into(),
        worktree_path: None,
        is_current: false,
        is_default: false,
        remote: None,
        open_workspace_id: None,
    }
}

fn state_with_branch() -> AppState {
    let mut state = AppState::new(None);
    state.repo_view.entries.push(RepoEntry::new(repo()));
    state.repo_view.list = SearchableList::new(1);
    state.mode = Mode::BranchSelect(context());
    state.branch_view.entries = vec![plain("feature")];
    state.branch_view.list = SearchableList::new(1);
    state.branch_view.open_worktree_load_state = OpenWorktreeLoadState::Loaded {
        repo_path: path("/repo"),
        generation: state.branch_view.generation,
    };
    state
}

fn settle(event: AppEvent, state: &mut AppState) -> TickChanges {
    let mut changes = TickChanges::default();
    process_app_event(event, state, &mut changes, 0);
    changes
}

#[test]
fn tests_new_branch_routing_rejects_empty_and_routes_existing_local() {
    let mut state = AppState::new(None);
    state.mode = Mode::BranchSelect(context());
    assert_eq!(route(&state), Err("Type a branch name first"));

    state.branch_view.entries =
        BranchEntry::build_local(&repo(), &["feature".into()], None, None, PathRules::Unix);
    state.branch_view.list = SearchableList::new(1);
    state.branch_view.list.input.text = "feature".into();
    assert!(matches!(
        route(&state),
        Ok(NewBranchRoute::Existing(branch)) if branch.name == "feature"
    ));
}

#[test]
fn bases_logical_selection_survives_current_generation_filter_results() {
    let mut state = state_with_branch();
    state.mode = Mode::SelectBaseBranch {
        context: context(),
        flow: BaseBranchSelection {
            new_name: "new".into(),
            bases: vec!["alpha".into(), "beta".into(), "gamma".into()],
            list: SearchableList {
                selected: Some(1),
                ..SearchableList::new(3)
            },
        },
    };
    state.new_branch.filter_generation = 11;
    settle(
        AppEvent::FilterCompleted {
            target: FilterTarget::Bases,
            generation: 11,
            matches: vec![
                (FilterKey::Base("gamma".into()), 3),
                (FilterKey::Base("beta".into()), 2),
                (FilterKey::Base("alpha".into()), 1),
            ],
            selected: None,
        },
        &mut state,
    );
    let Mode::SelectBaseBranch { flow, .. } = &state.mode else {
        unreachable!()
    };
    let selected = flow.list.selected.unwrap();
    let index = flow.list.filtered[selected].0;
    assert_eq!(flow.bases[index], "beta");
}

#[test]
fn base_picker_text_actions_edit_only_the_base_query() {
    let mut state = state_with_branch();
    state.branch_view.list.input.text = "underlying".into();
    let mut list = SearchableList::new(2);
    list.input.text = "one two".into();
    list.input.cursor = list.input.text.len();
    state.mode = Mode::SelectBaseBranch {
        context: context(),
        flow: BaseBranchSelection {
            new_name: "feat/new".into(),
            bases: vec!["main".into(), "feature".into()],
            list,
        },
    };

    let keys = KeysConfig::default();
    let around = Surroundings {
        inside_herdr: false,
        now: 0,
        canonical_checkout: None,
        canonical_repo: None,
    };
    for action in [
        Action::CursorLeft,
        Action::CursorRight,
        Action::Backspace,
        Action::DeleteWord,
        Action::Insert('x'),
    ] {
        process_action(action, &mut state, &keys, &around);
    }
    let Mode::SelectBaseBranch { flow, .. } = &state.mode else {
        unreachable!()
    };
    assert_eq!(flow.list.input.text, "one x");
    assert_eq!(state.branch_view.list.input.text, "underlying");
}

#[test]
fn invalid_new_branch_name_is_validated_by_git_and_returns_to_branch_view() {
    let mut state = state_with_branch();
    state.branch_view.list.input.text = "bad..name".into();
    state.branch_view.list.input.cursor = 9;

    let effect = start(&mut state, false);
    assert!(matches!(state.mode, Mode::ValidatingNewBranch { .. }));
    let Some(Effect::ValidateBranchName {
        repo_path,
        branch_name,
    }) = effect
    else {
        panic!("unexpected {effect:?}")
    };
    assert_eq!(
        (repo_path.clone(), branch_name.as_str()),
        (path("/repo"), "bad..name")
    );
    settle(
        validation_event(repo_path, branch_name, Ok(false)),
        &mut state,
    );

    assert!(matches!(state.mode, Mode::BranchSelect(_)));
    assert!(state.toasts[0].message.contains("Invalid branch name"));
}

#[test]
fn new_branch_before_local_load_stays_in_branch_view_then_works_after_load() {
    let mut state = state_with_branch();
    state.branch_view.entries.clear();
    state.branch_view.list = SearchableList::new(0);
    state.branch_view.list.input.text = "feat/new".into();
    state.branch_view.list.input.cursor = "feat/new".len();
    state.branch_view.loading = true;

    assert_eq!(start(&mut state, false), None);

    assert!(matches!(state.mode, Mode::BranchSelect(_)));
    assert!(state.branch_view.loading);
    assert!(state
        .toasts
        .last()
        .unwrap()
        .message
        .contains("still loading"));

    state.branch_view.loading = false;
    let effect = start(&mut state, false);

    assert!(matches!(state.mode, Mode::ValidatingNewBranch { .. }));
    assert_eq!(
        effect,
        Some(Effect::ValidateBranchName {
            repo_path: path("/repo"),
            branch_name: "feat/new".into(),
        })
    );
}

#[test]
fn validated_new_branch_preselects_known_default_local_base() {
    let mut state = state_with_branch();
    let mut main = plain("main");
    main.worktree_path = Some(path("/repo"));
    main.is_current = true;
    main.is_default = true;
    main.open_workspace_id = Some("w_1".into());
    let mut remote = plain("remote");
    remote.remote = Some("origin".into());
    state.branch_view.entries = vec![plain("feature"), main, remote];
    state.mode = Mode::ValidatingNewBranch {
        context: context(),
        name: "feat/new".into(),
    };
    settle(
        AppEvent::BranchNameValidated {
            repo_path: path("/repo"),
            branch_name: "feat/new".into(),
            valid: true,
            error: None,
        },
        &mut state,
    );

    let Mode::SelectBaseBranch { flow, .. } = &state.mode else {
        panic!("expected base picker")
    };
    assert_eq!(flow.bases, ["feature", "main"]);
    let selected = flow.list.filtered[flow.list.selected.unwrap()].0;
    assert_eq!(flow.bases[selected], "main");
}

#[test]
fn selected_base_is_passed_to_focused_new_branch_creation() {
    let mut state = state_with_branch();
    state.mode = Mode::SelectBaseBranch {
        context: context(),
        flow: BaseBranchSelection {
            new_name: "feat/new".into(),
            bases: vec!["main".into(), "feature".into()],
            list: SearchableList {
                selected: Some(1),
                ..SearchableList::new(2)
            },
        },
    };

    let effect = create(&mut state, true);
    assert!(matches!(
        &state.mode,
        Mode::Loading { message, .. } if message == "Creating feat/new from feature…"
    ));
    let Some(Effect::CreateBranch {
        repo_path,
        branch_name,
        base,
    }) = effect
    else {
        panic!("unexpected {effect:?}")
    };
    let Next::Ask(operation, call) =
        Operation::create_new_branch(repo_path, branch_name, base, OnOpenConfig::default())
    else {
        panic!("nothing was asked")
    };
    let Call::WorktreeCreate(request) = call else {
        panic!("expected worktree create")
    };
    assert_eq!(request.branch, "feat/new");
    assert_eq!(request.base.as_deref(), Some("feature"));
    assert!(request.focus);
    let Next::Done(finished) = operation.resume(Reply::WorktreeCreate(Ok(WorktreeCreateResponse {
        opened: Some(OpenedWorktree {
            workspace_id: "w_1".into(),
            root_pane_id: "p_root".into(),
            path: "/repo-feature".into(),
        }),
        warning: None,
    }))) else {
        panic!("not finished")
    };
    assert!(settle(finished.into_event(), &mut state).workspace_opened);
}

#[test]
fn cancelling_returns_to_the_branches() {
    let mut state = state_with_branch();
    assert!(!cancel(&mut state));
    state.mode = Mode::SelectBaseBranch {
        context: context(),
        flow: BaseBranchSelection {
            new_name: "new".into(),
            bases: Vec::new(),
            list: SearchableList::new(0),
        },
    };
    assert!(cancel(&mut state));
    assert!(matches!(state.mode, Mode::BranchSelect(_)));
}
