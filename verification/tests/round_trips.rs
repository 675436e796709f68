use herdr_kiosk::config::keys::{Command, KeyChord, KeysConfig, RawKeysConfig};
use herdr_kiosk::folder_bindings::FolderBindings;
use herdr_kiosk::git::repo::Repo;
use herdr_kiosk::input::{cluster_index, insert_into, remove_word, shorten, step_left, step_right};
use herdr_kiosk::keyboard::KeyCode;
use herdr_kiosk::order::Rank;
use herdr_kiosk::path::{strip_end_slashes, windows_path_key, PathBuf, PathRules};
use herdr_kiosk::pending_delete::{pending_from_file, PendingWorktreeDelete, STATE_VERSION};
use herdr_kiosk::pins::PinStore;
use herdr_kiosk::recency::RecencyKey;
use herdr_kiosk::screens::repo::{compare_folded, RepoEntry};
use herdr_kiosk::setup::is_offered;
use herdr_kiosk::state::AppState;
use herdr_kiosk::state_store::SavedFile;

fn clusters(parts: &[&str]) -> Vec<String> {
    parts.iter().map(|part| part.to_string()).collect()
}

#[test]
fn displayed_chords_read_back() {
    for text in [
        "ctrl+q", "C-q", "alt+enter", "C-M-S-x", "shift+tab", "space", "S-space", "+", "?",
        "pagedown", "C-del", "é",
    ] {
        let chord = KeyChord::parse(text).unwrap();
        assert_eq!(KeyChord::parse(&chord.to_text()), Ok(chord), "{text}");
    }
    let arrow = KeyChord::parse("up").unwrap();
    assert_eq!(arrow.to_text(), "↑");
    assert_eq!(KeyChord::parse("↑").unwrap().code, KeyCode::Char('↑'));
}

#[test]
fn command_names_read_back() {
    for command in [
        Command::Noop,
        Command::Quit,
        Command::Help,
        Command::DismissToast,
        Command::MoveUp,
        Command::MoveDown,
        Command::Open,
        Command::BranchesView,
        Command::Back,
        Command::NewBranch,
        Command::Delete,
        Command::Clear,
        Command::Backspace,
        Command::DeleteWord,
        Command::CursorLeft,
        Command::CursorRight,
    ] {
        assert_eq!(Command::parse(command.name()), Ok(command));
    }
}

#[test]
fn invalid_key_chords_and_unknown_actions_are_config_errors() {
    let with_binding = |chord: &str, command: &str| RawKeysConfig {
        general: Vec::new(),
        text_edit: Vec::new(),
        list_navigation: Vec::new(),
        modal: Vec::new(),
        repo_select: Vec::new(),
        branch_select: vec![(chord.to_string(), command.to_string())],
    };
    let chord = KeysConfig::from_raw(&with_binding("Hyper-B", "new_branch")).unwrap_err();
    assert!(chord.contains("invalid key chord"));
    let action = KeysConfig::from_raw(&with_binding("C-b", "unknown_action")).unwrap_err();
    assert!(action.contains("unknown key action"));
}

#[test]
fn edits_work_on_whole_clusters() {
    let text = clusters(&["a", "e\u{301}", " ", "b"]);
    assert_eq!(cluster_index(&text, 0), 0);
    assert_eq!(cluster_index(&text, 2), 1);
    assert_eq!(cluster_index(&text, 99), 4);
    let inserted = insert_into(&text, 1, 'x');
    assert_eq!((inserted.text.as_str(), inserted.cursor), ("axe\u{301} b", 2));
    let shorter = shorten(&text, 4);
    assert_eq!((shorter.text.as_str(), shorter.cursor), ("a b", 1));
    let start = shorten(&text, 0);
    assert_eq!((start.text.as_str(), start.cursor), ("ae\u{301} b", 0));
    let without_word = remove_word(&text, 5);
    assert_eq!((without_word.text.as_str(), without_word.cursor), ("b", 0));
    assert_eq!(step_left(&text, 4), 1);
    assert_eq!(step_right(&text, 1), 4);
    assert_eq!(step_right(&text, 6), 6);
}

#[test]
fn hidden_names_are_offered_for_a_dot_and_case_is_folded() {
    assert!(is_offered("Code", "co", "code", "co"));
    assert!(!is_offered(".cache", "c", ".cache", "c"));
    assert!(is_offered(".cache", ".", ".cache", "."));
}

fn entry(name: &str, path: &str) -> RepoEntry {
    RepoEntry::new(Repo {
        name: name.into(),
        path: PathBuf::new(path),
        is_git: true,
        worktrees: Vec::new(),
    })
}

#[test]
fn names_are_compared_without_case_then_by_name_then_by_path() {
    let (upper, lower) = (entry("Zed", "/a"), entry("ark", "/b"));
    assert_eq!(compare_folded(&upper, "zed", &lower, "ark", PathRules::Unix), Rank::Greater);
    let (big, small) = (entry("Ark", "/b"), entry("ark", "/a"));
    assert_eq!(compare_folded(&big, "ark", &small, "ark", PathRules::Unix), Rank::Less);
    let other = entry("ark", "/b");
    assert_eq!(compare_folded(&other, "ark", &small, "ark", PathRules::Unix), Rank::Greater);
    assert_eq!(compare_folded(&small, "ark", &small, "ark", PathRules::Unix), Rank::Equal);
}

#[test]
fn end_slashes_and_verbatim_prefixes_make_no_difference() {
    assert_eq!(strip_end_slashes("c:/repo//"), "c:/repo");
    assert_eq!(strip_end_slashes("c:/"), "c:/");
    assert_eq!(strip_end_slashes("/"), "/");
    assert_eq!(windows_path_key(r"\\?\C:\Repo"), windows_path_key(r"C:\Repo"));
    assert_eq!(
        windows_path_key(r"\\?\UNC\server\share"),
        windows_path_key(r"\\server\share")
    );
}

#[test]
fn saved_stores_read_back() {
    let keys = vec![
        RecencyKey::repo(&PathBuf::new("/one")),
        RecencyKey::repo(&PathBuf::new("/two")),
    ];
    assert_eq!(PinStore::from_saved(keys, PathRules::Unix).entries.len(), 2);

    let mut bindings = FolderBindings::new();
    assert!(bindings.record(&PathBuf::new("/one"), "w_1".into(), PathRules::Unix));
    assert!(bindings.record(&PathBuf::new("/two"), "w_2".into(), PathRules::Unix));
    let saved = bindings.bindings.clone();
    let read = FolderBindings::from_saved(saved, PathRules::Unix).unwrap();
    assert_eq!(read, bindings);
    assert!(bindings.remove(&PathBuf::new("/one"), PathRules::Unix));
    assert_eq!(bindings.lookup(&PathBuf::new("/one"), PathRules::Unix), None);
    assert_eq!(
        bindings.lookup(&PathBuf::new("/two"), PathRules::Unix).map(String::as_str),
        Some("w_2")
    );
}

fn pending(now: u64) -> PendingWorktreeDelete {
    PendingWorktreeDelete::new(
        PathBuf::new("/repo"),
        "feature".into(),
        PathBuf::new("/repo-feature"),
        now,
    )
}

#[test]
fn running_removals_read_back_and_can_be_cleared() {
    let file = SavedFile::Parsed {
        version: STATE_VERSION,
        entries: vec![pending(100)],
    };
    let (entries, problem) = pending_from_file(file, 200);
    assert_eq!(problem, None);
    assert_eq!(entries, vec![pending(100)]);

    let mut state = AppState::new(None);
    state.mark_pending_worktree_delete(pending(100));
    assert_eq!(state.delete.pending.len(), 1);
    state.clear_pending_worktree_delete(&PathBuf::new("/repo-feature"));
    assert!(state.delete.pending.is_empty());
    state.mark_pending_worktree_delete(pending(100));
    assert!(state.reconcile_pending_worktree_deletes(&PathBuf::new("/repo"), 200));
    assert!(state.delete.pending.is_empty());
}
