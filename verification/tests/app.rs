use herdr_kiosk::app::{
    apply_exit_effects, loading_hint, process_action, process_app_event, warning_line, RedrawState,
    RunOutcome, Surroundings,
};
use herdr_kiosk::branches::{BranchEntry, BranchId};
use herdr_kiosk::components::help::overlay;
use herdr_kiosk::components::hints::{dialog_hints, dismiss_hint};
use herdr_kiosk::config::keys::{BindingMode, KeysConfig, RawKeysConfig};
use herdr_kiosk::effects::{FilterItem, FilterRequest, TickChanges};
use herdr_kiosk::event::{AppEvent, FilterKey, FilterTarget};
use herdr_kiosk::fuzzy::{answer_filter, fuzzy_filter, rank_scored, sort_candidates, Candidate, Matcher};
use herdr_kiosk::git::repo::Repo;
use herdr_kiosk::input::SearchableList;
use herdr_kiosk::keyboard::Action;
use herdr_kiosk::path::{PathBuf, PathRules};
use herdr_kiosk::screens::branch::{BranchContext, OpenWorktreeLoadState};
use herdr_kiosk::screens::repo::RepoEntry;
use herdr_kiosk::state::{AppState, Mode};

fn keys_from(text: &str) -> KeysConfig {
    let table: toml::Table = text.parse().unwrap();
    let layer = |name: &str| -> Vec<(String, String)> {
        match table.get(name) {
            Some(toml::Value::Table(entries)) => entries
                .iter()
                .map(|(key, value)| (key.clone(), value.as_str().unwrap().to_string()))
                .collect(),
            _ => Vec::new(),
        }
    };
    KeysConfig::from_raw(&RawKeysConfig {
        general: layer("general"),
        text_edit: layer("text_edit"),
        list_navigation: layer("list_navigation"),
        modal: layer("modal"),
        repo_select: layer("repo_select"),
        branch_select: layer("branch_select"),
    })
    .unwrap()
}

fn around() -> Surroundings {
    Surroundings {
        inside_herdr: false,
        now: 0,
        canonical_checkout: None,
        canonical_repo: None,
    }
}

fn items(names: &[&str]) -> Vec<FilterItem> {
    names
        .iter()
        .map(|name| FilterItem {
            key: FilterKey::Branch(BranchId::Local((*name).into())),
            text: (*name).into(),
        })
        .collect()
}

fn names(matches: &[(FilterKey, i64)]) -> Vec<String> {
    matches
        .iter()
        .map(|(key, _)| match key {
            FilterKey::Repo(path) => String::from_utf8(path.file_name(PathRules::Unix).unwrap()).unwrap(),
            FilterKey::Branch(id) => id.display_name(),
            FilterKey::Base(name) => name.clone(),
            FilterKey::Help(index) => index.to_string(),
        })
        .collect()
}

#[test]
fn clean_idle_tick_does_not_redraw() {
    let mut redraw = RedrawState::new();

    assert!(redraw.take(false));
    assert!(!redraw.take(false));
    redraw.mark_dirty();
    assert!(redraw.take(false));
    assert!(!redraw.take(false));
}

#[test]
fn active_animation_redraws_without_dirty_state() {
    let mut redraw = RedrawState::new();

    assert!(redraw.take(true));
    assert!(redraw.take(true));
    assert!(!redraw.take(false));
}

#[test]
fn empty_search_preserves_canonical_order() {
    let items = items(&["zebra", "apple", "mango"]);
    assert_eq!(
        names(&fuzzy_filter("", &items, &Matcher::default())),
        ["zebra", "apple", "mango"]
    );
}

#[test]
fn fuzzy_order_is_score_then_length_then_alphabetical() {
    let cli_items = items(&["cli-extension-dep-graph", "cli-tools", "cli", "cli-abc"]);
    assert_eq!(
        names(&fuzzy_filter("cli", &cli_items, &Matcher::default())),
        ["cli", "cli-abc", "cli-tools", "cli-extension-dep-graph"]
    );
    let foo_items = items(&["bfoo", "afoo", "cfoo"]);
    assert_eq!(
        names(&fuzzy_filter("foo", &foo_items, &Matcher::default())),
        ["afoo", "bfoo", "cfoo"]
    );
}

#[test]
fn fuzzy_search_matches_collision_disambiguator() {
    let items = vec![FilterItem {
        key: FilterKey::Repo(PathBuf::new("/repo")),
        text: "demo (…/customer-one)".into(),
    }];
    assert_eq!(names(&fuzzy_filter("customer-one", &items, &Matcher::default())), ["repo"]);
}

#[test]
fn fuzzy_search_matches_remote_qualified_branch_display() {
    let id = BranchId::Remote {
        remote: "upstream".into(),
        name: "feature".into(),
    };
    let items = vec![FilterItem {
        key: FilterKey::Branch(id.clone()),
        text: id.display_name(),
    }];

    let matches = fuzzy_filter("upstream", &items, &Matcher::default());
    assert_eq!(matches.len(), 1);
    assert_eq!(matches[0].0, FilterKey::Branch(id));
}

#[test]
fn no_matches_returns_an_empty_result() {
    assert!(fuzzy_filter("zzzzz", &items(&["alpha", "beta"]), &Matcher::default()).is_empty());
}

#[test]
fn branch_filter_uses_the_shared_score_length_and_name_ranking() {
    let branches = items(&["feature/very-long", "feature", "feature-short"]);
    assert_eq!(
        names(&fuzzy_filter("feature", &branches, &Matcher::default())),
        ["feature", "feature-short", "feature/very-long"]
    );
}

#[test]
fn candidates_are_ranked_by_score_length_and_text() {
    let candidate = |index: usize, score: i64, text: &str| Candidate {
        index,
        score,
        text: text.into(),
    };
    let sorted = sort_candidates(vec![
        candidate(0, 5, "bb"),
        candidate(1, 9, "zzzz"),
        candidate(2, 5, "aa"),
        candidate(3, 5, "a"),
    ]);
    assert_eq!(
        sorted.iter().map(|found| found.index).collect::<Vec<_>>(),
        [1, 3, 2, 0]
    );
}

#[test]
fn rows_with_known_scores_are_ranked_and_the_rest_left_out() {
    let texts = ["bb", "zzzz", "no", "a"].map(String::from).to_vec();
    let scores = vec![Some(5), Some(9), None, Some(5)];
    assert_eq!(rank_scored("q", &texts, &scores), [(1, 9), (3, 5), (0, 5)]);
    assert_eq!(
        rank_scored("", &texts, &scores),
        [(0, 0), (1, 0), (2, 0), (3, 0)]
    );
}

#[test]
fn one_matcher_shows_the_texts_that_hold_the_query_in_order() {
    let matcher = Matcher::default();
    let rows = items(&["Alpha-Beta", "beta-alpha", "gamma", "ab"]);
    for (query, shown) in [
        ("ab", vec!["Alpha-Beta", "ab"]),
        ("AB", vec!["Alpha-Beta"]),
        ("ga", vec!["gamma"]),
        ("ba", vec!["Alpha-Beta", "beta-alpha"]),
        ("aA", vec![]),
    ] {
        let found = fuzzy_filter(query, &rows, &matcher);
        let mut names = names(&found);
        names.sort();
        assert_eq!(names, shown, "{query}");
    }
}

#[test]
fn help_fuzzy_filter_matches_key_command_and_description() {
    let overlay = overlay(&KeysConfig::default(), BindingMode::Branch);
    let items = overlay
        .rows
        .iter()
        .enumerate()
        .map(|(index, row)| FilterItem {
            key: FilterKey::Help(index),
            text: row.search_text(),
        })
        .collect::<Vec<_>>();
    for query in ["ctrl+o", "new_branch", "Create a new branch"] {
        let filtered = fuzzy_filter(query, &items, &Matcher::default());
        assert!(filtered.iter().any(|(key, _)| {
            matches!(key, FilterKey::Help(index) if overlay.rows[*index].command_name == "new_branch")
        }));
    }
}

#[test]
fn a_filter_answer_carries_its_request_along() {
    let request = FilterRequest {
        target: FilterTarget::Branches,
        generation: 4,
        query: "be".into(),
        items: items(&["alpha", "beta"]),
        selected: Some(FilterKey::Base("x".into())),
    };
    let event = answer_filter(request, &Matcher::default());
    let AppEvent::FilterCompleted {
        target,
        generation,
        matches,
        selected,
    } = event
    else {
        panic!("unexpected {event:?}");
    };
    assert_eq!((target, generation), (FilterTarget::Branches, 4));
    assert_eq!(names(&matches), ["beta"]);
    assert_eq!(selected, Some(FilterKey::Base("x".into())));
}

#[test]
fn modal_hints_follow_effective_remapped_bindings() {
    let keys = keys_from(
        "[general]\n\"C-c\" = \"noop\"\n\"C-q\" = \"quit\"\n[modal]\nenter = \"noop\"\nesc = \"noop\"\n\"C-y\" = \"open\"\n\"C-g\" = \"back\"",
    );
    assert_eq!(
        loading_hint(&keys).as_deref(),
        Some("ctrl+q to close (operation continues)")
    );
    assert_eq!(
        dialog_hints(&keys),
        (Some("ctrl+y".into()), Some("ctrl+g".into()))
    );
}

#[test]
fn dismiss_hint_uses_the_effective_remapped_binding() {
    let keys = keys_from("[general]\n\"C-x\" = \"noop\"\n\"C-d\" = \"dismiss_toast\"");
    assert_eq!(dismiss_hint(&keys).as_deref(), Some("ctrl+d"));
}

fn state_with_repo() -> AppState {
    let mut state = AppState::new(None);
    state.repo_view.entries.push(RepoEntry::new(Repo {
        name: "repo".into(),
        path: PathBuf::new("/repo"),
        is_git: true,
        worktrees: Vec::new(),
    }));
    state.repo_view.list = SearchableList::new(1);
    state
}

fn context() -> BranchContext {
    BranchContext {
        repo_path: PathBuf::new("/repo"),
        repo_name: "repo".into(),
    }
}

#[test]
fn branch_logical_selection_survives_current_generation_filter_results() {
    let mut state = state_with_repo();
    state.mode = Mode::BranchSelect(context());
    state.branch_view.open_worktree_load_state = OpenWorktreeLoadState::Loaded {
        repo_path: PathBuf::new("/repo"),
        generation: state.branch_view.generation,
    };
    state.branch_view.entries = ["alpha", "beta", "gamma"]
        .into_iter()
        .map(|name| BranchEntry {
            name: name.into(),
            worktree_path: None,
            is_current: false,
            is_default: false,
            remote: None,
            open_workspace_id: None,
        })
        .collect();
    state.branch_view.list = SearchableList::new(3);
    state.branch_view.list.selected = Some(1);
    state.branch_view.filter_generation = 9;
    let branch = |name: &str| FilterKey::Branch(BranchId::Local(name.into()));
    process_app_event(
        AppEvent::FilterCompleted {
            target: FilterTarget::Branches,
            generation: 9,
            matches: vec![(branch("gamma"), 3), (branch("beta"), 2), (branch("alpha"), 1)],
            selected: None,
        },
        &mut state,
        &mut TickChanges::default(),
        0,
    );
    assert_eq!(state.selected_branch().unwrap().name, "beta");
}

#[test]
fn unicode_actions_edit_repo_and_new_branch_queries() {
    let keys = KeysConfig::default();
    let mut state = state_with_repo();
    process_action(Action::Insert('é'), &mut state, &keys, &around());
    assert_eq!(state.repo_view.list.input.text, "é");

    state.mode = Mode::BranchSelect(context());
    process_action(Action::Insert('界'), &mut state, &keys, &around());
    assert_eq!(state.branch_view.list.input.text, "界");
}

#[test]
fn help_shields_the_screen_below_it() {
    let keys = KeysConfig::default();
    let mut state = state_with_repo();
    process_action(Action::ShowHelp, &mut state, &keys, &around());
    assert!(state.help_overlay.is_some());
    process_action(Action::Insert('x'), &mut state, &keys, &around());
    assert_eq!(state.repo_view.list.input.text, "");
    assert_eq!(state.help_overlay.as_ref().unwrap().list.input.text, "x");
    process_action(Action::CloseHelp, &mut state, &keys, &around());
    assert!(state.help_overlay.is_none());
    let quit = process_action(Action::Quit, &mut state, &keys, &around());
    assert_eq!(quit.outcome, Some(RunOutcome::Quit));
}

#[test]
fn an_opened_workspace_ends_the_picker_with_its_warning() {
    let mut state = state_with_repo();
    let mut changes = TickChanges::default();
    assert_eq!(apply_exit_effects(&mut changes), None);
    process_app_event(
        AppEvent::RepoOpened {
            warning: Some("careful".into()),
        },
        &mut state,
        &mut changes,
        0,
    );
    assert_eq!(
        apply_exit_effects(&mut changes),
        Some((RunOutcome::Opened, Some("careful".into())))
    );
    assert!(warning_line("careful", Some("no herdr")).contains("careful"));
}
