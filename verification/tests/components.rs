use herdr_kiosk::branches::BranchEntry;
use herdr_kiosk::components::branch_picker;
use herdr_kiosk::components::dialog::{config_location, delete_lines, loading_lines, no_search_dirs_lines};
use herdr_kiosk::components::error_toast::{queue_counter, toast_label, toast_lines};
use herdr_kiosk::components::help::{
    help_lines, help_title, layout_entries, overlay, update_scroll, HelpLayoutEntry,
};
use herdr_kiosk::components::hints::{footer_spans, picker_footer_spans};
use herdr_kiosk::components::list_row::{
    checked_right_align_suffix, cut_measured, right_align_suffix, set_apart, truncate_spans,
};
use herdr_kiosk::components::list_view::{fit_rows, spinner, title_of};
use herdr_kiosk::components::new_branch::{base_list_title, base_rows, popup_title};
use herdr_kiosk::components::popup::{dialog_size, toast_size, wrapped_height};
use herdr_kiosk::components::repo_list;
use herdr_kiosk::components::search_bar::{show_query, visible_slice, window};
use herdr_kiosk::components::span::{
    width_of, Cluster, Measured, Span, SpanStyle, Tone, Weight,
};
use herdr_kiosk::components::workspace_list;
use herdr_kiosk::config::keys::{BindingMode, KeysConfig, RawKeysConfig};
use herdr_kiosk::git::repo::Repo;
use herdr_kiosk::herdr::{WorkspaceInfo, WorkspaceWorktreeInfo};
use herdr_kiosk::input::SearchableList;
use herdr_kiosk::path::{PathBuf, PathRules};
use herdr_kiosk::recency::RecencyKey;
use herdr_kiosk::branches::BranchId;
use herdr_kiosk::screens::branch::BranchContext;
use herdr_kiosk::screens::delete::{DeleteFlowState, DeleteWorktreeTarget};
use herdr_kiosk::screens::new_branch::BaseBranchSelection;
use herdr_kiosk::screens::repo::RepoEntry;
use herdr_kiosk::screens::workspace::WorkspacePickerState;
use herdr_kiosk::state::{AppState, Mode};
use herdr_kiosk::toasts::ToastKind;

fn raw(text: &str) -> Span {
    Span::raw(text.into())
}

fn text(spans: &[Span]) -> String {
    spans.iter().map(|span| span.text.as_str()).collect()
}

fn context() -> BranchContext {
    BranchContext {
        repo_path: PathBuf::new("/repo"),
        repo_name: "repo".into(),
    }
}

#[test]
fn queue_counter_only_appears_for_pending_toasts() {
    assert_eq!(queue_counter(0), None);
    assert_eq!(queue_counter(1), None);
    assert_eq!(queue_counter(3).as_deref(), Some("1/3"));
}

#[test]
fn visible_slice_scrolls_without_splitting_graphemes() {
    let text = "A👩‍💻BC";
    let slice = visible_slice(text, "A👩‍💻B".len(), 3);
    assert_eq!(&text[slice.start..slice.end], "👩‍💻B");
    assert_eq!(slice.cursor_col, 2);
}

#[test]
fn a_window_is_found_from_measured_clusters() {
    let clusters: Vec<Cluster> = [("a", 1), ("字", 2), ("b", 1), ("c", 1)]
        .into_iter()
        .map(|(text, columns)| Cluster {
            text: text.into(),
            columns,
        })
        .collect();
    assert_eq!(window(&clusters, 0, 3), (0, 2, 0));
    assert_eq!(window(&clusters, 5, 3), (1, 3, 2));
}

#[test]
fn queries_show_control_characters_and_keep_the_cursor() {
    assert_eq!(show_query("a\tb", 2, 10), ("a\\tb".into(), 3));
    assert_eq!(show_query("", 0, 10), ("".into(), 0));
    assert_eq!(show_query("abc", 3, 0), ("".into(), 0));
    assert_eq!(show_query("é", 1, 5), ("é".into(), 0));
}

#[test]
fn suffix_is_right_aligned_and_left_text_is_truncated() {
    let spans = right_align_suffix(&[raw("a very long repository")], &[raw("● open")], 15);
    assert_eq!(width_of(&spans), 15);
    assert!(text(&spans).ends_with("● open"));
    assert!(text(&spans).contains('…'));
}

#[test]
fn truncation_keeps_multi_scalar_graphemes_intact() {
    let spans = truncate_spans(&[raw("a👩‍💻bc")], 4);

    assert_eq!(text(&spans), "a👩‍💻…");
}

#[test]
fn narrow_rows_lose_their_suffix() {
    let row = checked_right_align_suffix(&[raw("repo")], &[raw("● open")], 6).unwrap();
    assert_eq!(text(&row), "repo");
    assert!(truncate_spans(&[raw("repo")], 0).is_empty());
    let apart = set_apart(vec![raw("ab")], 2, &[raw("cd")], 2, 7);
    assert_eq!(text(&apart), "ab   cd");
}

#[test]
fn measured_pieces_are_cut_between_clusters() {
    let piece = |text: &str, tone: Tone| Measured {
        span: Span::toned(text.into(), tone),
        columns: text.len(),
        clusters: text
            .chars()
            .map(|character| Cluster {
                text: character.to_string(),
                columns: 1,
            })
            .collect(),
    };
    let row = cut_measured(&vec![piece("abc", Tone::Plain), piece("def", Tone::Muted)], 5);
    assert_eq!(
        row,
        vec![raw("abc"), Span::toned("d".into(), Tone::Muted), raw("…")]
    );
    assert_eq!(
        text(&cut_measured(&vec![piece("abc", Tone::Plain)], 3)),
        "abc"
    );
}

#[test]
fn boxes_are_as_high_as_their_wrapped_lines() {
    assert_eq!(wrapped_height(&vec![0, 10, 11], 5), 1 + 2 + 3);
    assert_eq!(wrapped_height(&vec![3], 0), 3);
    let lines = vec![vec![raw("abcdefghij")], Vec::new()];
    assert_eq!(toast_size(&lines, 13, 20), (9, 2 + 1 + 2));
    assert_eq!(dialog_size(&lines, 10, 3), (20, 3));
}

#[test]
fn toasts_carry_a_counter_and_how_to_dismiss_them() {
    let mut state = AppState::new(None);
    state.push_toast(ToastKind::Warning, "first\u{1b}");
    state.push_toast(ToastKind::Error, "queued");
    let lines = toast_lines(&state.toasts[0], state.toasts.len(), &KeysConfig::default());
    assert_eq!(text(&lines[0]), "first\\u{1b}  1/2");
    assert!(lines[1].is_empty());
    assert_eq!(text(&lines[2]), "ctrl+x dismiss");
    assert_eq!(toast_label(ToastKind::Warning), ("Warning", Tone::Warning));
    assert_eq!(toast_label(ToastKind::Error), ("Error", Tone::Error));
}

#[test]
fn overlay_uses_effective_lowercase_bindings_and_search_metadata() {
    let keys = KeysConfig::from_raw(&RawKeysConfig {
        general: Vec::new(),
        text_edit: Vec::new(),
        list_navigation: Vec::new(),
        modal: Vec::new(),
        repo_select: Vec::new(),
        branch_select: vec![
            ("C-b".into(), "new_branch".into()),
            ("C-o".into(), "noop".into()),
        ],
    })
    .unwrap();
    let overlay = overlay(&keys, BindingMode::Branch);
    let row = overlay
        .rows
        .iter()
        .find(|row| row.command_name == "new_branch")
        .unwrap();
    assert_eq!(row.key_display, "ctrl+b");
    assert!(row.search_text().contains("Create a new branch"));
    assert!(!overlay.rows.iter().any(|row| row.key_display == "ctrl+o"));
}

#[test]
fn filtered_layout_keeps_section_headers_and_separators() {
    let keys = KeysConfig::default();
    let mut overlay = overlay(&keys, BindingMode::Branch);
    let branch = overlay
        .rows
        .iter()
        .position(|row| row.section_name == "branches")
        .unwrap();
    let general = overlay
        .rows
        .iter()
        .position(|row| row.section_name == "general")
        .unwrap();
    overlay.list.filtered = vec![(branch, 1), (general, 1)];
    let entries = layout_entries(&overlay);
    assert!(matches!(entries[0], HelpLayoutEntry::Section("branches")));
    assert!(matches!(entries[2], HelpLayoutEntry::Blank));
    assert!(matches!(entries[3], HelpLayoutEntry::Section("general")));
    let lines = help_lines(&overlay);
    assert_eq!(text(&lines[0]), "branches:");
    assert_eq!(lines[0][0].style.weight, Weight::Heading);
    assert!(text(&lines[1]).starts_with("  "));
    assert_eq!(help_title(&overlay), " 2 bindings (esc: close) ");
    overlay.list.selected = Some(1);
    update_scroll(&mut overlay, 2);
    assert_eq!(overlay.list.scroll_offset, 3);
    overlay.list.filtered = Vec::new();
    assert_eq!(text(&help_lines(&overlay)[0]), "No matching bindings");
}

fn branch_state(entry: BranchEntry) -> AppState {
    let mut state = AppState::new(None);
    state.mode = Mode::BranchSelect(context());
    state.branch_view.entries = vec![entry];
    state.branch_view.list = SearchableList::new(1);
    state.branch_view.list.selected = None;
    state
}

#[test]
fn remote_row_uses_qualified_name_without_redundant_suffix() {
    let entry = BranchEntry::build_remote("origin", &["feature".into()], &[]).remove(0);
    let mut state = branch_state(entry);
    let view = branch_picker::lay_out(&mut state, 7, 0);
    let rendered = fit_rows(&view.rows, 76).unwrap();
    assert_eq!(text(&rendered[0]), "origin/feature");
    assert_eq!(
        rendered[0][0].style,
        SpanStyle {
            tone: Tone::Muted,
            weight: Weight::Dim,
        }
    );
    assert!(view.title.starts_with(" 1 of 1 branches"));
    assert_eq!(branch_picker::search_title(&state), "repo — select branch");
}

#[test]
fn pinned_branch_renders_a_text_marker() {
    let mut state = branch_state(BranchEntry {
        name: "feature".into(),
        worktree_path: None,
        is_current: false,
        is_default: false,
        remote: None,
        open_workspace_id: None,
    });
    state.pins.toggle(RecencyKey::branch(
        &PathBuf::new("/repo"),
        BranchId::Local("feature".into()),
    ), PathRules::Unix);
    let view = branch_picker::lay_out(&mut state, 5, 0);
    let rendered = text(&fit_rows(&view.rows, 36).unwrap()[0]);
    assert!(rendered.contains("◆ pin"));
}

#[test]
fn open_marks_stand_at_the_right_edge() {
    let item = branch_picker::branch_item(
        &BranchEntry {
            name: "main".into(),
            worktree_path: Some(PathBuf::new("/repo")),
            is_current: true,
            is_default: true,
            remote: None,
            open_workspace_id: Some("w_1".into()),
        },
        true,
    );
    assert_eq!(text(&item.left), "main (worktree) * (default)");
    assert_eq!(text(&item.suffix), "◆ pin  ● open");
    let mut state = AppState::new(None);
    let mut entry = RepoEntry::new(Repo {
        name: "repo".into(),
        path: PathBuf::new("/repo"),
        is_git: true,
        worktrees: Vec::new(),
    });
    entry.is_open = true;
    state.repo_view.entries = vec![entry];
    state.repo_view.list = SearchableList::new(1);
    state.repo_view.loading = true;
    let view = repo_list::lay_out(&mut state, 4, 80);
    assert_eq!(view.title, " 1 of 1 repos | scanning… ⠙ ");
    assert_eq!(view.selected, Some(0));
    assert_eq!(state.active_list_rows, 2);
    assert_eq!(
        text(&fit_rows(&view.rows, 12).unwrap()[0]),
        "repo  ● open"
    );
    state.repo_view.entries.clear();
    state.repo_view.list = SearchableList::new(0);
    let empty = repo_list::lay_out(&mut state, 4, 0);
    assert_eq!(empty.notice.unwrap().text, "Discovering repos…");
}

#[test]
fn rows_show_repo_name_branch_current_marker_and_agent_badge() {
    let mut state = WorkspacePickerState::new();
    state.load(vec![
        WorkspaceInfo {
            workspace_id: "w_1".into(),
            label: "photodrop fix\u{1b}modals".into(),
            focused: true,
            agent_status: Some("working".into()),
            branch: Some("fix-modals".into()),
            last_focused_unix_ms: Some(200),
            worktree: Some(WorkspaceWorktreeInfo {
                repo_root: "/repos/photodrop".into(),
                repo_name: "photodrop".into(),
            }),
        },
        WorkspaceInfo {
            workspace_id: "w_2".into(),
            label: "~".into(),
            focused: false,
            agent_status: Some("idle".into()),
            branch: None,
            last_focused_unix_ms: Some(100),
            worktree: None,
        },
    ]);

    let view = workspace_list::lay_out(&mut state, 6);
    let rows = fit_rows(&view.rows, 76).unwrap();
    let rendered: String = rows.iter().map(|row| text(row)).collect();

    assert!(rendered.contains("photodrop  fix-modals  current"));
    assert!(rendered.contains("● working"));
    assert!(rendered.contains("● idle"));
    assert!(view.title.contains("2 of 2 workspaces"));
    assert!(!rendered.chars().any(char::is_control));
}

#[test]
fn errors_replace_the_footer_hints() {
    let mut state = WorkspacePickerState::new();
    state.load(Vec::new());
    state.error = Some("could not focus workspace: gone".into());

    let footer = text(&picker_footer_spans(&state, &KeysConfig::default()));
    assert!(footer.contains("could not focus workspace: gone"));
    state.error = None;
    let hints = text(&picker_footer_spans(&state, &KeysConfig::default()));
    assert!(hints.contains("switch"));
}

#[test]
fn loading_state_shows_a_spinner_before_results_arrive() {
    let lines = workspace_list::loading_lines(&KeysConfig::default(), 0);
    assert_eq!(text(&lines[0]), "⠋ Loading workspaces…");
    assert_eq!(text(&lines[1]), "q to close");
    assert_eq!(spinner(799), '⠏');
    assert_eq!(spinner(800), '⠋');
    let opening = loading_lines("Opening\u{7}", &KeysConfig::default(), 80);
    assert_eq!(text(&opening[0]), "⠙ Opening\\u{7}");
}

fn flow(force: bool, in_progress: bool) -> DeleteFlowState {
    DeleteFlowState::new(
        context(),
        DeleteWorktreeTarget {
            branch_name: "feature".into(),
            worktree_path: PathBuf::new("/wt"),
            open_workspace_id: Some("w_1".into()),
            force,
            in_progress,
        },
    )
}

#[test]
fn the_delete_dialog_asks_and_tells_how_to_answer() {
    let keys = KeysConfig::default();
    let asked: Vec<String> = delete_lines(&flow(false, false), &keys, 0, PathRules::Unix)
        .iter()
        .map(|line| text(line))
        .collect();
    assert_eq!(
        asked,
        [
            "Remove checkout /wt?",
            "Its herdr workspace will also be closed.",
            "",
            "enter confirm / esc cancel",
        ]
    );
    let forced = delete_lines(&flow(true, true), &keys, 0, PathRules::Unix);
    assert_eq!(text(&forced[0]), "This checkout has uncommitted changes.");
    assert_eq!(text(&forced[1]), "Force-remove /wt?");
    assert_eq!(text(forced.last().unwrap()), "⠋ Removing checkout…");
}

#[test]
fn footers_name_the_keys_of_their_screen() {
    let keys = KeysConfig::default();
    let repo = text(&footer_spans(&keys, BindingMode::Repo, &Mode::RepoSelect));
    assert!(repo.ends_with("ctrl+h help  q quit"));
    assert!(repo.contains(" branches"));
    let loading = Mode::Loading {
        message: "x".into(),
        branch: None,
    };
    assert_eq!(
        text(&footer_spans(&keys, BindingMode::Modal, &loading)),
        "ctrl+c quit"
    );
    let dialog = Mode::ConfirmWorktreeDelete(flow(false, false));
    let confirm = text(&footer_spans(&keys, BindingMode::Modal, &dialog));
    assert!(confirm.starts_with("enter confirm  esc back"));
}

#[test]
fn the_base_of_a_new_branch_is_picked_in_a_box() {
    let mode = Mode::SelectBaseBranch {
        context: context(),
        flow: BaseBranchSelection {
            new_name: "feat\n".into(),
            bases: vec!["main".into(), "next".into()],
            list: SearchableList::new(2),
        },
    };
    assert_eq!(
        popup_title(&mode).as_deref(),
        Some(" New branch \"feat\\n\" — pick base ")
    );
    assert_eq!(popup_title(&Mode::RepoSelect), None);
    let Mode::SelectBaseBranch { mut flow, .. } = mode else {
        panic!("another mode");
    };
    flow.list.filtered = vec![(1, 3)];
    assert_eq!(text(&base_rows(&flow)), "next");
    assert_eq!(base_list_title(&flow), " 1 bases ");
    assert_eq!(title_of(1, 20, "x", "!"), " 1 of 20 x! ");
}

#[test]
fn the_notice_without_directories_names_the_config() {
    let location = config_location(Some(&PathBuf::new("/c/config.toml")), PathRules::Unix);
    assert_eq!(location, "Config path: /c/config.toml");
    assert_eq!(
        config_location(None, PathRules::Unix),
        "No trusted config path could be resolved."
    );
    assert_eq!(text(&no_search_dirs_lines(&location)[2]), location);
}

#[test]
fn toast_label_and_content_height_render_correctly_at_multiple_sizes() {
    let cases = [
        (
            18,
            16,
            ToastKind::Warning,
            "Warning",
            "abcdefghijklmnopqrstuvwxyz0123456789",
            true,
            (14, 10),
        ),
        (
            52,
            4,
            ToastKind::Error,
            "Error",
            "A toast in a short terminal",
            false,
            (48, 4),
        ),
        (
            120,
            30,
            ToastKind::Error,
            "Error",
            "A short toast in a wide terminal",
            false,
            (100, 5),
        ),
    ];
    for (terminal_width, terminal_height, kind, label, message, queued, size) in cases {
        let mut state = AppState::new(None);
        state.push_toast(kind, message);
        if queued {
            state.push_toast(ToastKind::Error, "queued");
        }
        let lines = toast_lines(&state.toasts[0], state.toasts.len(), &KeysConfig::default());
        let shown: Vec<String> = lines
            .iter()
            .map(|line| line.iter().map(|span| span.text.as_str()).collect())
            .collect();
        let counter = if queued { "  1/2" } else { "" };
        assert_eq!(
            shown,
            [format!("{message}{counter}"), String::new(), "ctrl+x dismiss".to_string()]
        );
        let tone = match kind {
            ToastKind::Warning => Tone::Warning,
            ToastKind::Error => Tone::Error,
        };
        assert_eq!(toast_label(kind), (label, tone));
        assert!(!shown.concat().contains(&format!("{label}:")));
        assert_eq!(toast_size(&lines, terminal_width, terminal_height), size);
    }
}
