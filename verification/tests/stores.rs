use herdr_kiosk::branches::BranchId;
use herdr_kiosk::config::ConfigWarning;
use herdr_kiosk::folder_bindings::{FolderBinding, FolderBindings};
use herdr_kiosk::path::{PathBuf, PathRules};
use herdr_kiosk::pending_delete::{
    clear, mark, pending_from_file, PendingWorktreeDelete, TTL_SECS,
};
use herdr_kiosk::pins::{
    failed_toggle, pins_from_file, PinOutcome, PinStore, PinToggle, MAX_ENTRIES,
};
use herdr_kiosk::recency::{
    load_nowhere, record_failed, recency_from_file, warning_summary, RecencyKey, RecencyStore,
    STATE_VERSION,
};
use herdr_kiosk::state_store::{
    invalid_warning, quarantine_path, resolve_state_path, sibling_path, Disposition, SavedFile,
};

fn repo_key(path: &str) -> RecencyKey {
    RecencyKey::repo(&PathBuf::new(path))
}

fn outcome(toggle: PinToggle) -> PinOutcome {
    match toggle {
        PinToggle::Applied { outcome, warnings } => {
            assert!(warnings.is_empty());
            outcome
        }
        PinToggle::Failed { warnings } => panic!("toggle failed: {warnings:?}"),
    }
}

#[test]
fn toggle_outcomes_include_capacity_and_use_greater_than_or_equal_defensively() {
    let mut store = PinStore::default();
    for index in 0..MAX_ENTRIES {
        assert_eq!(
            outcome(store.toggle(repo_key(&format!("/repos/{index}")), PathRules::Unix)),
            PinOutcome::Pinned
        );
    }
    assert_eq!(
        outcome(store.toggle(repo_key("/repos/overflow"), PathRules::Unix)),
        PinOutcome::AtCapacity
    );
    store.entries.push(repo_key("/repos/excess"));
    assert_eq!(
        outcome(store.toggle(repo_key("/repos/another"), PathRules::Unix)),
        PinOutcome::AtCapacity
    );
    assert_eq!(
        outcome(store.toggle(repo_key("/repos/0"), PathRules::Unix)),
        PinOutcome::Unpinned
    );
}

#[test]
fn pinning_twice_restores_the_store() {
    let mut store = PinStore::new();
    let path = PathBuf::new("/repos/alpha");
    assert_eq!(store.apply_toggle(RecencyKey::repo(&path), PathRules::Unix), PinOutcome::Pinned);
    assert!(store.repo_is_pinned(&path, PathRules::Unix));
    assert!(!store.branch_is_pinned(&path, &BranchId::Local("main".into()), PathRules::Unix));
    assert_eq!(
        store.apply_toggle(RecencyKey::repo(&path), PathRules::Unix),
        PinOutcome::Unpinned
    );
    assert!(store.is_empty());
    assert!(matches!(
        failed_toggle(&path, "denied"),
        PinToggle::Failed { warnings } if warnings.len() == 1
            && warnings[0].message.contains("Could not persist pin state")
    ));
}

#[test]
fn saved_pins_are_deduplicated_and_bounded() {
    let mut saved = vec![repo_key("/repos/alpha"), repo_key("/repos/alpha")];
    for index in 0..MAX_ENTRIES {
        saved.push(repo_key(&format!("/repos/{index}")));
    }
    let (store, problem) = pins_from_file(SavedFile::Parsed {
        version: 1,
        entries: saved,
    }, PathRules::Unix);
    assert_eq!(problem, None);
    assert_eq!(store.entries.len(), MAX_ENTRIES);
    assert!(store.repo_is_pinned(&PathBuf::new("/repos/alpha"), PathRules::Unix));
    let (missing, none) = pins_from_file(SavedFile::Missing, PathRules::Unix);
    assert!(missing.is_empty());
    assert_eq!(none, None);
    let (corrupt, problem) = pins_from_file(SavedFile::Malformed("bad".into()), PathRules::Unix);
    assert!(corrupt.is_empty());
    assert!(problem.is_some());
}

#[test]
fn recording_deduplicates_and_moves_entries_to_the_front() {
    let mut store = RecencyStore::default();
    store.record(repo_key("/repos/alpha"), PathRules::Unix);
    store.record(repo_key("/repos/beta"), PathRules::Unix);
    store.record(repo_key("/repos/alpha"), PathRules::Unix);

    assert_eq!(store.repo_rank(&PathBuf::new("/repos/alpha"), PathRules::Unix), Some(0));
    assert_eq!(store.repo_rank(&PathBuf::new("/repos/beta"), PathRules::Unix), Some(1));
    assert_eq!(store.entries.len(), 2);
}

#[test]
fn recording_a_key_moves_only_the_keys_before_it() {
    let mut store = RecencyStore::default();
    for name in ["/d", "/c", "/b", "/a"] {
        store.record(repo_key(name), PathRules::Unix);
    }
    store.record(repo_key("/c"), PathRules::Unix);
    let ranks = ["/a", "/b", "/c", "/d", "/e"].map(|name| store.repo_rank(&PathBuf::new(name), PathRules::Unix));
    assert_eq!(ranks, [Some(1), Some(2), Some(0), Some(3), None]);
}

#[test]
fn recording_evicts_the_oldest_entry_at_the_bound() {
    let mut store = RecencyStore::default();
    for index in 0..=MAX_ENTRIES {
        store.record(repo_key(&format!("/repos/{index}")), PathRules::Unix);
    }

    assert_eq!(store.entries.len(), MAX_ENTRIES);
    assert_eq!(
        store.repo_rank(&PathBuf::new(&format!("/repos/{MAX_ENTRIES}")), PathRules::Unix),
        Some(0)
    );
    assert_eq!(store.repo_rank(&PathBuf::new("/repos/0"), PathRules::Unix), None);
}

#[test]
fn repo_and_branch_ranks_use_distinct_typed_keys() {
    let mut store = RecencyStore::default();
    let repo = PathBuf::new("/repos/alpha");
    store.record(RecencyKey::repo(&repo), PathRules::Unix);
    store.record(RecencyKey::branch(&repo, BranchId::Local("main".into())), PathRules::Unix);

    assert_eq!(
        store.branch_rank(&repo, &BranchId::Local("main".into()), PathRules::Unix),
        Some(0)
    );
    assert_eq!(store.repo_rank(&repo, PathRules::Unix), Some(1));
    assert_eq!(
        store.branch_rank(&repo, &BranchId::Local("other".into()), PathRules::Unix),
        None
    );
}

#[test]
fn opening_a_branch_also_records_its_repository() {
    let mut store = RecencyStore::new();
    let repo = PathBuf::new("/repos/alpha");
    store.record_opening(RecencyKey::branch(&repo, BranchId::Local("main".into())), PathRules::Unix);
    assert_eq!(
        store.branch_rank(&repo, &BranchId::Local("main".into()), PathRules::Unix),
        Some(0)
    );
    assert_eq!(store.repo_rank(&repo, PathRules::Unix), Some(1));
    let (loaded, problem) = recency_from_file(SavedFile::Parsed {
        version: STATE_VERSION,
        entries: store.entries,
    }, PathRules::Unix);
    assert_eq!(problem, None);
    assert_eq!(loaded.repo_rank(&repo, PathRules::Unix), Some(1));
    let (unknown, problem) = recency_from_file(SavedFile::Parsed {
        version: STATE_VERSION + 1,
        entries: Vec::new(),
    }, PathRules::Unix);
    assert!(unknown.entries.is_empty());
    assert!(problem.is_some());
}

#[test]
fn folders_are_recorded_looked_up_and_overwritten() {
    let mut bindings = FolderBindings::new();
    let folder = PathBuf::new("/folder");
    assert!(bindings.record(&folder, "w_1".into(), PathRules::Unix));
    assert!(!bindings.record(&folder, " ".into(), PathRules::Unix));
    assert!(!bindings.record(&PathBuf::new("relative"), "w_1".into(), PathRules::Unix));
    assert!(bindings.record(&folder, "w_2".into(), PathRules::Unix));
    assert_eq!(bindings.lookup(&folder, PathRules::Unix).map(String::as_str), Some("w_2"));
    assert_eq!(bindings.lookup(&PathBuf::new("/other"), PathRules::Unix), None);
    assert!(bindings.remove(&folder, PathRules::Unix));
    assert!(!bindings.remove(&folder, PathRules::Unix));
    let saved = vec![FolderBinding {
        folder: PathBuf::new("/folder"),
        workspace_id: "w_1".into(),
    }];
    assert!(FolderBindings::from_saved(saved, PathRules::Unix).is_ok());
}

fn pending(path: &str, started: u64) -> PendingWorktreeDelete {
    PendingWorktreeDelete::new(
        PathBuf::new("/repo"),
        "feature".into(),
        PathBuf::new(path),
        started,
    )
}

#[test]
fn expired_removals_are_not_resumed() {
    let (entries, problem) = pending_from_file(
        SavedFile::Parsed {
            version: 1,
            entries: vec![pending("/wt", 0), pending("/fresh", TTL_SECS)],
        },
        TTL_SECS + 1,
    );
    assert_eq!(problem, None);
    assert_eq!(entries, vec![pending("/fresh", TTL_SECS)]);
    let mut all = Vec::new();
    mark(&mut all, pending("/one", 1), PathRules::Unix);
    mark(&mut all, pending("/two", 2), PathRules::Unix);
    assert_eq!(all, vec![pending("/two", 2)]);
    clear(&mut all, &PathBuf::new("/two"), PathRules::Unix);
    assert!(all.is_empty());
}

#[test]
fn state_paths_follow_the_documented_order() {
    let plugin = resolve_state_path("recency.json", |name| match name {
        "HERDR_PLUGIN_STATE_DIR" => Some("/plugin".to_string()),
        "XDG_STATE_HOME" => Some("/xdg".to_string()),
        _ => None,
    }, PathRules::Unix);
    assert_eq!(plugin.path, Some(PathBuf::new("/plugin/recency.json")));
    let relative = resolve_state_path("recency.json", |name| match name {
        "HERDR_PLUGIN_STATE_DIR" => Some("plugin".to_string()),
        "XDG_STATE_HOME" => Some("/xdg".to_string()),
        _ => None,
    }, PathRules::Unix);
    assert_eq!(
        relative.path,
        Some(PathBuf::new("/xdg/herdr-kiosk/recency.json"))
    );
    assert_eq!(relative.warnings.len(), 1);
    let home = resolve_state_path("recency.json", |name| {
        (name == "HOME").then_some("/home/tester".to_string())
    }, PathRules::Unix);
    assert_eq!(
        home.path,
        Some(PathBuf::new(
            "/home/tester/.local/state/herdr-kiosk/recency.json"
        ))
    );
}

#[test]
fn files_beside_a_state_file_are_named_after_it() {
    let path = PathBuf::new("/state/pins.json");
    let sibling = sibling_path(&path, ".lock", PathRules::Unix);
    assert_eq!(sibling.parent(PathRules::Unix), Some(PathBuf::new("/state")));
    assert_ne!(sibling, path);
    assert_ne!(
        quarantine_path(&path, 1, "2", 0, PathRules::Unix),
        quarantine_path(&path, 1, "2", 1, PathRules::Unix)
    );
    let warning = invalid_warning(
        &path,
        "Pin state",
        "is corrupt",
        &Disposition::Quarantined(PathBuf::new("/state/old")),
        "pins were reset",
    );
    assert!(warning.message.contains("/state/pins.json"));
    assert!(warning.message.contains("is corrupt"));
    assert!(warning.message.contains("/state/old"));
}

#[test]
fn stores_without_a_place_are_empty_and_say_so() {
    let earlier = vec![ConfigWarning {
        message: "earlier".into(),
    }];
    let loaded = load_nowhere(earlier.clone());
    assert!(loaded.store.entries.is_empty());
    assert_eq!(loaded.warnings.len(), 2);
    assert_eq!(
        loaded.warnings[1].message,
        "Recency state is unavailable because no trusted state directory could be resolved"
    );
    let pins = herdr_kiosk::pins::load_nowhere(earlier);
    assert!(pins.store.is_empty());
    assert_eq!(
        pins.warnings[1].message,
        "Pin state is unavailable because no trusted state directory could be resolved"
    );
}

#[test]
fn a_recording_that_failed_is_summed_up_in_one_line() {
    assert_eq!(warning_summary(&Vec::new()), None);
    let first = record_failed(Vec::new(), None);
    let both = record_failed(first, Some((&PathBuf::new("/state/recency.json"), "denied")));
    assert_eq!(
        warning_summary(&both).as_deref(),
        Some(
            "Could not persist recency state because no trusted state directory could be \
             resolved; Could not persist recency state at /state/recency.json: denied"
        )
    );
}

#[test]
fn folders_are_bound_where_they_are_absolute_by_the_rules_of_the_host() {
    let folder = PathBuf::new(r"C:\work");
    let mut bindings = FolderBindings::new();
    assert!(!bindings.record(&folder, "w_1".into(), PathRules::Unix));
    assert!(bindings.record(&folder, "w_1".into(), PathRules::Windows));
    assert_eq!(
        bindings.lookup(&PathBuf::new("c:/work/"), PathRules::Windows).map(String::as_str),
        Some("w_1")
    );
}

#[test]
fn spellings_of_one_path_share_a_key_by_the_rules_of_the_host() {
    for (rules, entries) in [(PathRules::Windows, 1), (PathRules::Unix, 2)] {
        let mut store = RecencyStore::default();
        store.record(repo_key(r"C:\repo"), rules);
        store.record(repo_key("c:/repo/"), rules);
        assert_eq!(store.entries.len(), entries);
    }
}
