use herdr_kiosk::branches::BranchEntry;
use herdr_kiosk::collisions::{
    are_distinguishable, checked_disambiguators, collision_disambiguators,
    collision_disambiguators_with_case,
};
use herdr_kiosk::git::repo::{Repo, Worktree};
use herdr_kiosk::herdr::WorktreeInfo;
use herdr_kiosk::input::{SearchableList, TextInput};
use herdr_kiosk::path::{PathBuf, PathRules};
use herdr_kiosk::screens::branch::BranchContext;
use herdr_kiosk::screens::new_branch::NewBranchRoute;
use herdr_kiosk::screens::repo::RepoEntry;
use herdr_kiosk::state::{AppState, Mode};
use herdr_kiosk::toasts::{ToastKind, MAX_RETAINED_TOASTS};

fn repo(path: &str) -> Repo {
    Repo {
        name: path.rsplit('/').next().unwrap().to_string(),
        path: PathBuf::new(path),
        is_git: true,
        worktrees: Vec::new(),
    }
}

#[test]
fn state_collision_disambiguates_two_equal_names_with_shortest_parent_suffix() {
    let repos = [repo("foo/bar/baz"), repo("qux/bar/baz")];
    assert_eq!(
        collision_disambiguators(&repos, PathRules::Unix),
        [Some("foo/bar".into()), Some("qux/bar".into())]
    );
}

#[test]
fn state_collision_disambiguates_three_places_independently() {
    let repos = [
        repo("/root/a/shared/demo"),
        repo("/root/b/shared/demo"),
        repo("/root/unique/demo"),
    ];
    assert_eq!(
        collision_disambiguators(&repos, PathRules::Unix),
        [
            Some("…/a/shared".into()),
            Some("…/b/shared".into()),
            Some("…/unique".into()),
        ]
    );
}

#[test]
fn state_collision_handles_parents_that_also_collide() {
    let repos = [repo("/one/team/api"), repo("/two/team/api")];
    assert_eq!(
        collision_disambiguators(&repos, PathRules::Unix),
        [Some("one/team".into()), Some("two/team".into())]
    );
}

#[test]
fn state_collision_handles_repos_nested_below_search_roots() {
    let repos = [
        repo("/search/client/ios/app"),
        repo("/search/client/web/app"),
        repo("/search/direct/app"),
        repo("/search/other"),
    ];
    assert_eq!(
        collision_disambiguators(&repos, PathRules::Unix),
        [
            Some("…/ios".into()),
            Some("…/web".into()),
            Some("…/direct".into()),
            None,
        ]
    );
}

#[test]
fn state_collision_leaves_unique_names_unchanged() {
    let repos = [repo("/one/alpha"), repo("/two/beta")];
    assert_eq!(collision_disambiguators(&repos, PathRules::Unix), [None, None]);
}

#[test]
fn state_collision_windows_mode_is_case_insensitive_and_uses_forward_slashes() {
    let repos = [repo("C:/One/Team/API"), repo("c:/two/team/api")];
    assert_eq!(
        collision_disambiguators_with_case(&repos, true, PathRules::Unix),
        [Some("…/One/Team".into()), Some("…/two/team".into())]
    );
}

#[test]
fn repositories_at_one_place_cannot_be_told_apart() {
    let twice = [repo("/one/alpha"), repo("/one/alpha")];
    assert!(!are_distinguishable(&twice, false, PathRules::Unix));
    assert_eq!(checked_disambiguators(&twice, false, PathRules::Unix), None);
    let other_case = [repo("/One/alpha"), repo("/one/alpha")];
    assert!(are_distinguishable(&other_case, false, PathRules::Unix));
    assert!(!are_distinguishable(&other_case, true, PathRules::Unix));
}

#[test]
fn text_input_deletes_unicode_graphemes_and_words() {
    let mut input = TextInput::default();
    for character in "one 👩‍💻".chars() {
        input.insert_char(character);
    }
    input.backspace();
    assert_eq!(input.text, "one ");
    input.delete_word();
    assert!(input.text.is_empty());
}

#[test]
fn cursor_moves_over_whole_clusters() {
    let mut input = TextInput::new();
    for character in "a👩‍💻b".chars() {
        input.insert_char(character);
    }
    assert_eq!(input.cursor, input.text.len());
    input.cursor_left();
    input.cursor_left();
    assert_eq!(input.cursor, 1);
    input.cursor_right();
    assert_eq!(&input.text[..input.cursor], "a👩‍💻");
    for place in [0, 1, 12] {
        input.cursor = place;
        input.cursor_right();
        assert_ne!(input.cursor, place);
        input.cursor_left();
        assert_eq!(input.cursor, place);
    }
    input.clear();
    assert_eq!((input.text.as_str(), input.cursor), ("", 0));
}

#[test]
fn searchable_list_scroll_follows_keyboard_selection() {
    let mut list = SearchableList::new(8);
    list.move_selection(6);
    list.update_scroll_offset(3);
    assert_eq!(list.selected, Some(6));
    assert_eq!(list.scroll_offset, 4);
    list.move_selection(-5);
    list.update_scroll_offset(3);
    assert_eq!(list.selected, Some(1));
    assert_eq!(list.scroll_offset, 1);
}

#[test]
fn searchable_list_materializes_only_the_visible_window_and_selection() {
    let mut list = SearchableList::new(20_000);
    list.scroll_offset = 10_000;
    list.selected = Some(19_999);

    let visible = list.visible_items(12);

    assert_eq!(visible.len(), 13);
    assert_eq!(visible.first(), Some(&(10_000, 10_000)));
    assert_eq!(visible[11], (10_011, 10_011));
    assert_eq!(visible.last(), Some(&(19_999, 19_999)));
}

#[test]
fn scan_warnings_are_aggregated_into_one_toast() {
    let mut state = AppState::new(None);

    for _ in 0..1_000 {
        state.push_scan_warning();
    }

    assert_eq!(state.toasts.len(), 1);
    assert_eq!(
        state.toasts[0].message,
        "1000 directories could not be scanned"
    );
}

#[test]
fn toast_queue_is_bounded_and_dedup_index_stays_in_sync() {
    let mut state = AppState::new(None);

    for index in 0..100 {
        state.push_toast(ToastKind::Warning, &format!("warning {index}"));
    }
    for _ in 0..100 {
        state.push_toast(ToastKind::Warning, "warning 99");
    }

    assert_eq!(state.toasts.len(), 8);
    assert_eq!(state.toasts.len(), MAX_RETAINED_TOASTS);
    assert_eq!(
        state.toasts.first().map(|toast| toast.message.as_str()),
        Some("warning 92")
    );
    state.dismiss_toast();
    assert_eq!(state.toasts.len(), 7);
    assert_eq!(state.toasts[0].message, "warning 93");
}

#[test]
fn state_current_repo_selection_prefers_the_deepest_containing_repo() {
    let mut state = AppState::new(Some(PathBuf::new("/work/outer/inner/src")));
    state.repo_view.entries = vec![
        RepoEntry::new(repo("/work/outer")),
        RepoEntry::new(repo("/work/outer/inner")),
    ];
    state.repo_view.list = SearchableList::new(2);
    state.apply_current_repo_selection();
    assert_eq!(state.repo_view.list.selected, Some(1));
}

#[test]
fn branch_entries_derive_current_default_worktree_and_open_markers() {
    let repo = Repo {
        name: "repo".into(),
        path: PathBuf::new("/repo"),
        is_git: true,
        worktrees: vec![
            Worktree {
                path: PathBuf::new("/repo"),
                branch: Some("main".into()),
            },
            Worktree {
                path: PathBuf::new("/repo-feature"),
                branch: Some("feature".into()),
            },
        ],
    };
    let mut entries = BranchEntry::build_local(
        &repo,
        &["main".into(), "feature".into(), "plain".into()],
        Some("main"),
        Some(&PathBuf::new("/repo-feature/src")),
        PathRules::Unix,
    );
    for entry in &mut entries {
        entry.apply_open_worktrees(
            &[WorktreeInfo {
                path: "/repo-feature".into(),
                branch: Some("feature".into()),
                open_workspace_id: Some("w_2".into()),
            }],
            PathRules::Unix,
        );
    }
    let feature = entries
        .iter()
        .find(|entry| entry.name == "feature")
        .unwrap();
    assert!(feature.is_current);
    assert!(feature.worktree_path.is_some());
    assert_eq!(feature.open_workspace_id.as_deref(), Some("w_2"));
    let main = entries.iter().find(|entry| entry.name == "main").unwrap();
    assert!(main.is_default);
    assert!(!main.is_current);
    let plain = entries.iter().find(|entry| entry.name == "plain").unwrap();
    assert!(plain.worktree_path.is_none());
}

#[test]
fn branch_entries_have_no_current_marker_when_context_is_outside_repo_worktrees() {
    let mut repo = repo("/repo");
    repo.worktrees.push(Worktree {
        path: PathBuf::new("/repo"),
        branch: Some("main".into()),
    });
    let entries = BranchEntry::build_local(
        &repo,
        &["main".into()],
        Some("main"),
        Some(&PathBuf::new("/somewhere-else")),
        PathRules::Unix,
    );
    assert!(!entries[0].is_current);
    assert!(entries[0].is_default);
}

#[test]
fn remote_entries_are_deduplicated_against_local_names() {
    let entries = BranchEntry::build_remote(
        "upstream",
        &["main".into(), "feature".into()],
        &["main".into()],
    );
    assert_eq!(entries.len(), 1);
    assert_eq!(entries[0].remote.as_deref(), Some("upstream"));
    assert_eq!(entries[0].name, "feature");
}

#[test]
fn state_new_branch_routing_rejects_empty_and_routes_existing_local() {
    let mut state = AppState::new(None);
    state.mode = Mode::BranchSelect(BranchContext {
        repo_path: PathBuf::new("/repo"),
        repo_name: "repo".into(),
    });
    assert_eq!(state.new_branch_route(), Err("Type a branch name first"));

    state.branch_view.entries =
        BranchEntry::build_local(&repo("/repo"), &["feature".into()], None, None, PathRules::Unix);
    state.branch_view.list = SearchableList::new(1);
    state.branch_view.list.input.text = "feature".into();
    assert!(matches!(
        state.new_branch_route(),
        Ok(NewBranchRoute::Existing(branch)) if branch.name == "feature"
    ));
}

#[test]
fn state_delete_guards_refuse_main_checkout_and_remote_only_entries_in_state() {
    let mut state = AppState::new(None);
    state.mode = Mode::BranchSelect(BranchContext {
        repo_path: PathBuf::new("/repo"),
        repo_name: "repo".into(),
    });
    state.branch_view.entries = vec![BranchEntry {
        name: "main".into(),
        worktree_path: Some(PathBuf::new("/repo")),
        is_current: true,
        is_default: true,
        remote: None,
        open_workspace_id: Some("w_1".into()),
    }];
    state.branch_view.list = SearchableList::new(1);
    assert_eq!(
        state.selected_worktree_for_delete(None, None),
        Err("Cannot delete the main checkout")
    );

    state.branch_view.entries[0].worktree_path = Some(PathBuf::new("/alias"));
    assert_eq!(
        state.selected_worktree_for_delete(Some(&PathBuf::new("/repo")), None),
        Err("Cannot delete the main checkout")
    );
    assert_eq!(
        state.selected_worktree_for_delete(
            Some(&PathBuf::new("/real")),
            Some(&PathBuf::new("/real"))
        ),
        Err("Cannot delete the main checkout")
    );
    assert_eq!(
        state.selected_worktree_for_delete(None, None),
        Err("Open checkout state is still loading; deletion is disabled")
    );

    state.branch_view.entries[0] = BranchEntry {
        name: "remote-only".into(),
        worktree_path: None,
        is_current: false,
        is_default: false,
        remote: Some("origin".into()),
        open_workspace_id: None,
    };
    assert_eq!(
        state.selected_worktree_for_delete(None, None),
        Err("Remote-only branches have no checkout to delete")
    );
}
