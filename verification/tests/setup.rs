use herdr_kiosk::components::setup::{
    confirm_lines, directory_screen, leaves_notice, welcome_lines,
};
use herdr_kiosk::config::SearchDirEntry;
use herdr_kiosk::config_write::{
    call_at, next_stage, temporary_path, FileCall, FileReply, WriteNext, WriteStage,
};
use herdr_kiosk::keyboard::{KeyCode, KeyEvent, KeyModifiers};
use herdr_kiosk::path::{PathBuf, PathRules};
use herdr_kiosk::setup::{
    common_prefix, complete_names, complete_paths_with, handle_depth_key, handle_directory_key,
    handle_key, normalize_search_dir, parse_small_number, split_input, SetupDir, SetupOutcome,
    SetupState, SetupStep,
};

fn nothing(_: &PathBuf) -> Result<Vec<String>, String> {
    Ok(Vec::new())
}

fn press(code: KeyCode) -> KeyEvent {
    KeyEvent {
        code,
        modifiers: KeyModifiers::none(),
    }
}

fn shift() -> KeyModifiers {
    KeyModifiers {
        shift: true,
        ..KeyModifiers::none()
    }
}

fn control() -> KeyModifiers {
    KeyModifiers {
        control: true,
        ..KeyModifiers::none()
    }
}

#[test]
fn state_machine_adds_updates_removes_and_confirms_directories() {
    let mut state = SetupState::default();
    state.continue_from_welcome();
    state.input.text = "~/Code".into();
    state.begin_depth().unwrap();
    state.input.text = "3".into();
    state.commit_depth().unwrap();
    state.commit_folder_mode().unwrap();
    assert_eq!(state.dirs[0].depth, 3);
    state.input.text = "~/Code".into();
    state.begin_depth().unwrap();
    state.input.text = "2".into();
    state.commit_depth().unwrap();
    state.commit_folder_mode().unwrap();
    assert_eq!(
        state.dirs,
        [SetupDir {
            path: "~/Code".into(),
            depth: 2,
            include_non_git: None,
        }]
    );
    assert!(state.remove_last().is_some());
    assert!(state.dirs.is_empty());
    assert!(state.begin_depth().is_err());
}

#[test]
fn cancelling_depth_restores_the_pending_path_for_editing() {
    let mut state = SetupState::default();
    state.continue_from_welcome();
    state.input.text = "~/Code".into();
    state.begin_depth().unwrap();

    state.cancel_depth();

    assert_eq!(state.step, SetupStep::Directories);
    assert_eq!(state.input.text, "~/Code");
    assert_eq!(state.input.cursor, "~/Code".len());
    assert!(state.dirs.is_empty());
}

#[test]
fn filesystem_root_is_preserved_when_beginning_depth() {
    let mut state = SetupState::default();
    state.continue_from_welcome();
    state.input.text = "/".into();

    state.begin_depth().unwrap();

    assert_eq!(state.step, SetupStep::Depth { path: "/".into() });
}

#[test]
fn trailing_separator_is_trimmed_from_a_normal_search_path() {
    let mut state = SetupState::default();
    state.continue_from_welcome();
    state.input.text = "/work/projects/".into();

    state.begin_depth().unwrap();

    assert_eq!(
        state.step,
        SetupStep::Depth {
            path: "/work/projects".into()
        }
    );
}

#[test]
fn windows_and_unc_roots_are_preserved() {
    for root in [r"C:\", r"\\server\share\"] {
        assert_eq!(normalize_search_dir(root), root);
    }
}

#[test]
fn completion_and_tilde_handling_use_the_filesystem() {
    let read = |parent: &PathBuf| -> Result<Vec<String>, String> {
        assert_eq!(*parent, PathBuf::new("/home/tester"));
        Ok(vec![
            "Development".into(),
            "Desktop".into(),
            ".hidden".into(),
        ])
    };
    let values = complete_paths_with("~/De", Some(&PathBuf::new("/home/tester")), &read, PathRules::Unix);
    assert_eq!(values, ["~/Desktop", "~/Development"]);
    assert_eq!(common_prefix(&values), "~/De");
    let shared = ["abcd", "abce", "abz"].map(String::from).to_vec();
    assert_eq!(common_prefix(&shared), "ab");
}

#[test]
fn path_input_accepts_windows_separators_and_preserves_the_typed_style() {
    assert_eq!(
        split_input(r"C:\\Users\\Tom\\Dev"),
        (r"C:\\Users\\Tom\\".into(), "Dev".into())
    );
    assert_eq!(
        split_input("C:/Users/Tom/Dev"),
        ("C:/Users/Tom/".into(), "Dev".into())
    );
    let read = |parent: &PathBuf| -> Result<Vec<String>, String> {
        assert_eq!(*parent, PathBuf::new("/home/tester"));
        Ok(vec!["Development".into()])
    };
    let values = complete_paths_with(r"~\De", Some(&PathBuf::new("/home/tester")), &read, PathRules::Unix);
    assert_eq!(values, [r"~\Development"]);
}

fn one_directory() -> SetupState {
    let mut state = SetupState::default();
    state.continue_from_welcome();
    state.input.text = "~/Code".into();
    state.begin_depth().unwrap();
    state.input.text = "2".into();
    state.commit_depth().unwrap();
    state
}

#[test]
fn the_folder_mode_decides_the_include_non_git_setting() {
    let mut git_only = one_directory();
    git_only.commit_folder_mode().unwrap();
    assert_eq!(
        git_only.search_dirs(),
        [SearchDirEntry::Rich {
            path: "~/Code".into(),
            depth: Some(2),
            include_non_git: None,
        }]
    );

    let mut all = one_directory();
    all.select_next_folder_mode();
    all.commit_folder_mode().unwrap();
    assert_eq!(all.dirs[0].include_non_git, Some(true));
    assert!(matches!(
        all.search_dirs().as_slice(),
        [SearchDirEntry::Rich {
            include_non_git: Some(true),
            ..
        }]
    ));
}

#[test]
fn wizard_directory_input_accepts_shifted_uppercase_letters() {
    let mut state = SetupState::default();

    handle_directory_key(
        &mut state,
        KeyEvent {
            code: KeyCode::Char('A'),
            modifiers: shift(),
        },
        None,
        &nothing,
        PathRules::Unix,
    );

    assert_eq!(state.input.text, "A");
}

#[test]
fn wizard_directory_input_accepts_unicode() {
    let mut state = SetupState::default();
    for character in ['é', '界'] {
        handle_directory_key(&mut state, press(KeyCode::Char(character)), None, &nothing, PathRules::Unix);
    }
    assert_eq!(state.input.text, "é界");
}

#[test]
fn wizard_depth_input_accepts_shift_modifier_and_rejects_control() {
    let mut state = SetupState::default();
    state.continue_from_welcome();
    state.input.text = "/Repo".into();
    state.begin_depth().unwrap();

    handle_depth_key(
        &mut state,
        KeyEvent {
            code: KeyCode::Char('2'),
            modifiers: shift(),
        },
        None,
        &nothing,
        PathRules::Unix,
    );
    handle_depth_key(
        &mut state,
        KeyEvent {
            code: KeyCode::Char('3'),
            modifiers: control(),
        },
        None,
        &nothing,
        PathRules::Unix,
    );

    assert_eq!(state.input.text, "2");
}

#[test]
fn wizard_depth_replaces_the_default_only_on_the_first_edit() {
    for (digits, expected) in [("10", "10"), ("12", "12"), ("2", "2")] {
        let mut state = SetupState::default();
        state.continue_from_welcome();
        state.input.text = "/repo".into();
        state.input.cursor = state.input.text.len();
        state.begin_depth().unwrap();
        for digit in digits.chars() {
            handle_depth_key(&mut state, press(KeyCode::Char(digit)), None, &nothing, PathRules::Unix);
        }
        assert_eq!(state.input.text, expected);
    }
}

#[test]
fn backspace_removes_the_pristine_depth_default_once() {
    let mut state = SetupState::default();
    state.continue_from_welcome();
    state.input.text = "/repo".into();
    state.input.cursor = state.input.text.len();
    state.begin_depth().unwrap();
    handle_depth_key(&mut state, press(KeyCode::Backspace), None, &nothing, PathRules::Unix);
    assert!(state.input.text.is_empty());
    assert!(!state.depth_default_pristine);
    handle_depth_key(&mut state, press(KeyCode::Char('2')), None, &nothing, PathRules::Unix);
    assert_eq!(state.input.text, "2");
}

#[test]
fn keys_lead_through_the_setup() {
    let mut state = SetupState::default();
    assert_eq!(
        handle_key(&mut state, press(KeyCode::Enter), None, &nothing, PathRules::Unix),
        SetupOutcome::Continue
    );
    assert_eq!(state.step, SetupStep::Directories);
    for character in "/w".chars() {
        handle_key(&mut state, press(KeyCode::Char(character)), None, &nothing, PathRules::Unix);
    }
    for _ in 0..3 {
        handle_key(&mut state, press(KeyCode::Enter), None, &nothing, PathRules::Unix);
    }
    assert_eq!(state.dirs.len(), 1);
    handle_key(&mut state, press(KeyCode::Enter), None, &nothing, PathRules::Unix);
    assert_eq!(state.step, SetupStep::Confirm);
    assert_eq!(
        handle_key(&mut state, press(KeyCode::Enter), None, &nothing, PathRules::Unix),
        SetupOutcome::Write
    );
    assert_eq!(
        handle_key(
            &mut state,
            KeyEvent {
                code: KeyCode::Char('c'),
                modifiers: control(),
            },
            None,
            &nothing, PathRules::Unix
        ),
        SetupOutcome::Quit
    );
}

#[test]
fn depths_are_small_positive_numbers() {
    assert_eq!(parse_small_number("12"), Some(12));
    assert_eq!(parse_small_number("65536"), None);
    assert_eq!(parse_small_number("x"), None);
    let mut state = SetupState::default();
    state.continue_from_welcome();
    state.input.text = "/repo".into();
    state.begin_depth().unwrap();
    state.input.text = "0".into();
    assert!(state.commit_depth().is_err());
}

#[test]
fn completions_keep_hidden_names_for_a_typed_dot() {
    let names = vec!["b".to_string(), ".a".into(), "a".into()];
    assert_eq!(complete_names("/x/", &names), ["/x/a", "/x/b"]);
    assert_eq!(complete_names("/x/.", &names), ["/x/.a"]);
}

fn write(exists: &[bool], failing: Option<FileCall>) -> (Vec<FileCall>, Result<(), String>) {
    let path = PathBuf::new("/config/config.toml");
    let temporary = temporary_path(&path, 7, "9", PathRules::Unix);
    assert_eq!(temporary, PathBuf::new("/config/.config.toml.7.9.tmp"));
    let mut looks = exists.iter();
    let mut calls = Vec::new();
    let mut stage = WriteStage::CheckTarget;
    loop {
        let call = call_at(&stage);
        calls.push(call);
        let reply = if call == FileCall::Exists {
            FileReply::Exists(*looks.next().unwrap())
        } else if Some(call) == failing {
            FileReply::Failed("denied".into())
        } else {
            FileReply::Done
        };
        match next_stage(&path, &temporary, stage, reply) {
            WriteNext::Stage(next) => stage = next,
            WriteNext::Written => return (calls, Ok(())),
            WriteNext::Failed(error) => return (calls, Err(error)),
        }
    }
}

#[test]
fn a_config_is_written_beside_its_place_and_never_over_another() {
    let (calls, result) = write(&[false, false], None);
    assert_eq!(result, Ok(()));
    assert_eq!(
        calls,
        [
            FileCall::Exists,
            FileCall::CreateParents,
            FileCall::WriteTemporary,
            FileCall::Exists,
            FileCall::Install,
        ]
    );
    let (calls, result) = write(&[true], None);
    assert_eq!(calls, [FileCall::Exists]);
    assert_eq!(
        result.unwrap_err(),
        "refusing to overwrite existing config /config/config.toml"
    );
    let (calls, result) = write(&[false, true], None);
    assert_eq!(calls.last(), Some(&FileCall::RemoveTemporary));
    assert_eq!(
        result.unwrap_err(),
        "refusing to overwrite config created during setup: /config/config.toml"
    );
}

#[test]
fn failures_of_the_file_system_are_told() {
    for (call, message) in [
        (
            FileCall::CreateParents,
            "failed to create parent directory for /config/config.toml: denied",
        ),
        (
            FileCall::WriteTemporary,
            "failed to write temporary config /config/.config.toml.7.9.tmp: denied",
        ),
        (
            FileCall::Install,
            "failed to install config /config/config.toml: denied",
        ),
    ] {
        let (calls, result) = write(&[false, false], Some(call));
        assert_eq!(result.unwrap_err(), message);
        assert_eq!(
            calls.contains(&FileCall::RemoveTemporary),
            call == FileCall::Install
        );
    }
}

fn texts(lines: &[Vec<herdr_kiosk::components::span::Span>]) -> Vec<String> {
    lines
        .iter()
        .map(|line| line.iter().map(|span| span.text.as_str()).collect())
        .collect()
}

#[test]
fn setup_screens_show_what_was_entered() {
    let welcome = texts(&welcome_lines("/config\n"));
    assert_eq!(welcome[6], "Config: /config\\n");
    let mut state = one_directory();
    state.commit_folder_mode().unwrap();
    let screen = directory_screen(&state);
    assert_eq!(texts(&screen.added), ["✓ ~/Code  depth 2"]);
    assert!(!screen.asks_depth);
    assert_eq!(
        texts(&confirm_lines(&state, "/c"))[3],
        "✓ ~/Code  (depth 2)"
    );
    state.completions = (0..7).map(|index| format!("/x{index}")).collect();
    state.selected_completion = Some(1);
    let listed = directory_screen(&state);
    assert_eq!(listed.auxiliary_height, 5);
    assert_eq!(listed.completions[..2], ["  /x0", "▸ /x1"]);
    state.input.text = "/work".into();
    state.begin_depth().unwrap();
    let asked = directory_screen(&state);
    assert_eq!((asked.path.as_str(), asked.path_cursor), ("/work", 5));
    assert_eq!(asked.auxiliary_height, 3);
    assert!(leaves_notice(press(KeyCode::Esc)));
    assert!(!leaves_notice(press(KeyCode::Char('c'))));
}
