use herdr_kiosk::config::keys::{default_keys_toml, BindingMode, Command, KeyChord, KeysConfig, RawKeysConfig};
use herdr_kiosk::input::SearchableList;
use herdr_kiosk::keyboard::{Action, KeyCode, KeyEvent, KeyModifiers};
use herdr_kiosk::keymap::resolve_action;
use herdr_kiosk::path::PathBuf;
use herdr_kiosk::screens::branch::BranchContext;
use herdr_kiosk::screens::delete::{DeleteFlowState, DeleteWorktreeTarget};
use herdr_kiosk::screens::new_branch::BaseBranchSelection;
use herdr_kiosk::state::{AppState, HelpBindingRow, HelpOverlayState, Mode};
use herdr_kiosk::toasts::ToastKind;

fn keys_from(text: &str) -> Result<KeysConfig, String> {
    let table: toml::Table = text.parse().unwrap();
    let layer = |name: &str| -> Vec<(String, String)> {
        match table.get(name) {
            Some(toml::Value::Table(entries)) => entries
                .iter()
                .map(|(key, value)| (key.clone(), value.as_str().unwrap().to_string()))
                .collect(),
            _ => Vec::new(),
        }
    };
    KeysConfig::from_raw(&RawKeysConfig {
        general: layer("general"),
        text_edit: layer("text_edit"),
        list_navigation: layer("list_navigation"),
        modal: layer("modal"),
        repo_select: layer("repo_select"),
        branch_select: layer("branch_select"),
    })
}

fn chord(text: &str) -> KeyChord {
    KeyChord::parse(text).unwrap()
}

fn shift() -> KeyModifiers {
    KeyModifiers {
        shift: true,
        ..KeyModifiers::none()
    }
}

fn control() -> KeyModifiers {
    KeyModifiers {
        control: true,
        ..KeyModifiers::none()
    }
}

fn key(code: KeyCode, modifiers: KeyModifiers) -> KeyEvent {
    KeyEvent { code, modifiers }
}

fn context() -> BranchContext {
    BranchContext {
        repo_path: PathBuf::new("/repo"),
        repo_name: "repo".into(),
    }
}

#[test]
fn parses_and_displays_valid_chords() {
    assert_eq!(chord("C-b").to_text(), "ctrl+b");
    assert_eq!(chord("Alt-backspace").to_text(), "alt+backspace");
    assert_eq!(chord("shift-tab").to_text(), "shift+tab");
    assert_eq!(chord("space").to_text(), "space");
    let shifted = chord("S-a");
    assert_eq!(shifted.to_text(), "shift+a");
    assert_eq!(
        shifted,
        KeyChord::from_event(key(KeyCode::Char('A'), shift()))
    );
    assert_eq!(chord(&shifted.to_text()), shifted);
    assert_eq!(chord("A"), chord("a"));
}

#[test]
fn rejects_invalid_chords_and_unknown_actions() {
    let bad_chord = keys_from("[branch_select]\n\"Hyper-Nope\" = \"new_branch\"").unwrap_err();
    assert!(bad_chord.contains("invalid key chord"));
    let bad_action = keys_from("[branch_select]\n\"C-b\" = \"launch_missiles\"").unwrap_err();
    assert!(bad_action.contains("unknown key action"));
    let shifted_number = keys_from("[repo_select]\n\"S-1\" = \"branches_view\"").unwrap_err();
    assert!(shifted_number.contains("bind the resulting character directly"));
}

#[test]
fn user_keys_merge_with_defaults_and_override_matching_chords() {
    let keys =
        keys_from("[branch_select]\n\"C-b\" = \"new_branch\"\n\"C-o\" = \"noop\"").unwrap();
    assert_eq!(
        keys.command_for(BindingMode::Branch, chord("C-b")),
        Some(Command::NewBranch)
    );
    assert_eq!(
        keys.command_for(BindingMode::Branch, chord("enter")),
        Some(Command::Open)
    );
    assert_eq!(
        keys.command_for(BindingMode::Branch, chord("C-o")),
        Some(Command::Noop)
    );
}

#[test]
fn help_rows_are_derived_from_overridden_bindings() {
    let keys =
        keys_from("[branch_select]\n\"C-b\" = \"new_branch\"\n\"C-o\" = \"noop\"").unwrap();
    let rendered = keys
        .sections(BindingMode::Branch)
        .into_iter()
        .flat_map(|section| section.bindings)
        .map(|binding| format!("{} {:?}", binding.chord.to_text(), binding.command))
        .collect::<Vec<_>>()
        .join("\n");
    assert!(rendered.contains("ctrl+b NewBranch"));
    assert!(!rendered.contains("ctrl+o NewBranch"));
}

#[test]
fn base_branch_mode_layers_search_navigation_and_dialog_bindings() {
    let keys = KeysConfig::default();
    for (text, command) in [
        ("up", Command::MoveUp),
        ("down", Command::MoveDown),
        ("C-p", Command::MoveUp),
        ("C-n", Command::MoveDown),
        ("backspace", Command::Backspace),
        ("C-w", Command::DeleteWord),
        ("left", Command::CursorLeft),
        ("right", Command::CursorRight),
        ("enter", Command::Open),
        ("esc", Command::Back),
    ] {
        assert_eq!(
            keys.command_for(BindingMode::BaseBranch, chord(text)),
            Some(command),
            "unexpected base-branch command for {text}"
        );
    }
}

#[test]
fn delete_dialog_remains_modal() {
    let keys = KeysConfig::default();
    assert_eq!(keys.command_for(BindingMode::Modal, chord("backspace")), None);
    assert_eq!(keys.command_for(BindingMode::Modal, chord("down")), None);
}

#[test]
fn commands_are_named_and_described() {
    assert_eq!(Command::parse("new_branch"), Ok(Command::NewBranch));
    assert_eq!(Command::NewBranch.name(), "new_branch");
    assert!(Command::NewBranch
        .description()
        .contains("Create a new branch"));
    assert!(Command::parse("launch").is_err());
    for text in ["", "C-", "C-C-a", "ab"] {
        assert!(KeyChord::parse(text).is_err(), "{text:?}");
    }
}

#[test]
fn question_mark_remains_searchable_and_configured_help_opens_overlay() {
    let state = AppState::new(None);
    let keys = KeysConfig::default();
    assert_eq!(
        resolve_action(key(KeyCode::Char('?'), KeyModifiers::none()), &state, &keys),
        Some(Action::Insert('?'))
    );
    assert_eq!(
        resolve_action(key(KeyCode::Char('h'), control()), &state, &keys),
        Some(Action::ShowHelp)
    );
}

#[test]
fn q_default_is_contextual_and_can_be_unbound() {
    let mut state = AppState::new(None);
    let q = key(KeyCode::Char('q'), KeyModifiers::none());
    assert_eq!(
        resolve_action(q, &state, &KeysConfig::default()),
        Some(Action::Quit)
    );
    state.repo_view.list.input.text = "a".into();
    assert_eq!(
        resolve_action(q, &state, &KeysConfig::default()),
        Some(Action::Insert('q'))
    );

    state.repo_view.list.input.clear();
    let keys = keys_from("[repo_select]\nq = \"noop\"").unwrap();
    assert_eq!(resolve_action(q, &state, &keys), None);
}

#[test]
fn toast_dismiss_has_precedence_over_branch_delete() {
    let mut state = AppState::new(None);
    state.mode = Mode::BranchSelect(context());
    let chord = key(KeyCode::Char('x'), control());
    assert_eq!(
        resolve_action(chord, &state, &KeysConfig::default()),
        Some(Action::DeleteWorktree)
    );
    state.push_toast(ToastKind::Warning, "notice");
    assert_eq!(
        resolve_action(chord, &state, &KeysConfig::default()),
        Some(Action::DismissToast)
    );
}

#[test]
fn existing_modal_defaults_are_preserved() {
    let keys = KeysConfig::default();
    let none = KeyModifiers::none();
    let mut state = AppState::new(None);
    state.mode = Mode::SelectBaseBranch {
        context: context(),
        flow: BaseBranchSelection {
            new_name: "feat".into(),
            bases: vec!["main".into()],
            list: SearchableList::new(1),
        },
    };
    assert_eq!(
        resolve_action(key(KeyCode::Enter, none), &state, &keys),
        Some(Action::CreateNewBranch)
    );
    assert_eq!(
        resolve_action(key(KeyCode::Esc, none), &state, &keys),
        Some(Action::CancelOverlay)
    );
    state.mode = Mode::ConfirmWorktreeDelete(DeleteFlowState::new(
        context(),
        DeleteWorktreeTarget {
            branch_name: "feat".into(),
            worktree_path: PathBuf::new("/wt"),
            open_workspace_id: None,
            force: false,
            in_progress: false,
        },
    ));
    assert_eq!(
        resolve_action(key(KeyCode::Enter, none), &state, &keys),
        Some(Action::ConfirmDeleteWorktree)
    );
}

#[test]
fn base_picker_resolves_all_search_and_navigation_actions() {
    let mut state = AppState::new(None);
    state.mode = Mode::SelectBaseBranch {
        context: context(),
        flow: BaseBranchSelection {
            new_name: "feat".into(),
            bases: vec!["main".into(), "next".into()],
            list: SearchableList::new(2),
        },
    };
    let keys = KeysConfig::default();
    let none = KeyModifiers::none();
    for (code, modifiers, expected) in [
        (KeyCode::Up, none, Action::MoveSelection(-1)),
        (KeyCode::Down, none, Action::MoveSelection(1)),
        (KeyCode::Char('p'), control(), Action::MoveSelection(-1)),
        (KeyCode::Char('n'), control(), Action::MoveSelection(1)),
        (KeyCode::Backspace, none, Action::Backspace),
        (KeyCode::Char('w'), control(), Action::DeleteWord),
        (KeyCode::Left, none, Action::CursorLeft),
        (KeyCode::Right, none, Action::CursorRight),
    ] {
        assert_eq!(
            resolve_action(key(code, modifiers), &state, &keys),
            Some(expected)
        );
    }
}

#[test]
fn help_overlay_searches_without_triggering_underlying_mode_commands() {
    let mut state = AppState::new(None);
    state.help_overlay = Some(HelpOverlayState {
        rows: vec![HelpBindingRow {
            section_name: "general",
            key_display: "ctrl+h".into(),
            command_name: "help",
            description: "Show active key bindings",
        }],
        list: SearchableList::new(1),
    });
    let keys = KeysConfig::default();
    let none = KeyModifiers::none();
    assert_eq!(
        resolve_action(key(KeyCode::Char('q'), none), &state, &keys),
        Some(Action::Insert('q'))
    );
    assert_eq!(
        resolve_action(key(KeyCode::Backspace, none), &state, &keys),
        Some(Action::Backspace)
    );
    assert_eq!(
        resolve_action(key(KeyCode::Down, none), &state, &keys),
        Some(Action::MoveSelection(1))
    );
    assert_eq!(
        resolve_action(key(KeyCode::Esc, none), &state, &keys),
        Some(Action::CloseHelp)
    );
}

#[test]
fn written_default_keys_are_the_default_keys() {
    let written = default_keys_toml();
    assert!(written.starts_with("```toml\n[keys.general]\n\"ctrl+c\" = \"quit\"\n"));
    let body = written
        .strip_prefix("```toml\n")
        .and_then(|text| text.strip_suffix("```\n"))
        .unwrap()
        .replace("[keys.", "[");
    assert!(body.contains("\"up\" = \"move_up\"\n"));
    assert_eq!(keys_from(&body).unwrap(), KeysConfig::default());
}

#[test]
fn chords_and_commands_are_read_by_from_str() {
    for text in ["ctrl+q", "S-tab", "pageup", "space", "a", "7"] {
        let chord: KeyChord = text.parse().unwrap();
        assert_eq!(chord.to_text().parse(), Ok(chord));
    }
    assert!("Hyper-x".parse::<KeyChord>().is_err());
    assert_eq!("new_branch".parse(), Ok(Command::NewBranch));
    assert_eq!(
        "launch".parse::<Command>(),
        Err("unknown key action 'launch'".to_string())
    );
}

#[test]
fn help_shows_exactly_what_takes_effect() {
    let keys = keys_from("[branch_select]\n\"C-o\" = \"noop\"\n\"C-b\" = \"new_branch\"").unwrap();
    for mode in [
        BindingMode::Repo,
        BindingMode::Branch,
        BindingMode::BaseBranch,
        BindingMode::Modal,
    ] {
        let sections = keys.sections(mode);
        assert!(sections.iter().all(|section| !section.bindings.is_empty()));
        let all = [
            &keys.general,
            &keys.text_edit,
            &keys.list_navigation,
            &keys.modal,
            &keys.repo_select,
            &keys.branch_select,
        ];
        for binding in all.into_iter().flatten() {
            let effective = binding.command != Command::Noop
                && keys.command_for(mode, binding.chord) == Some(binding.command);
            let shown = sections
                .iter()
                .any(|section| section.bindings.contains(binding));
            assert_eq!(shown, effective, "{binding:?} in {mode:?}");
        }
    }
}
