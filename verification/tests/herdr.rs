use herdr_kiosk::config::{OnOpenPaneDirection, Ratio};
use herdr_kiosk::context::PluginContext;
use herdr_kiosk::focus::{
    direction_toward, layout_args, move_args, tab_args, wants_direction, FocusStep, FocusWalk,
    LayoutPane, PaneRect,
};
use herdr_kiosk::herdr::{
    count_times, created_answer, error_of_fields, find_member, invalid_response, opened_answer, parse_error_envelope,
    removed_answer, unreadable_answer, workspace_answer, CliHerdrProvider, HerdrError, JsonField, JsonMember, OpenedWorktree,
    PaneSplitRequest, TabCreateRequest, WorktreeCreateRequest, WorktreeOpenTarget,
};
use herdr_kiosk::path::{PathBuf, PathRules};

fn provider() -> CliHerdrProvider {
    CliHerdrProvider::new(PathBuf::new("/does/not/exist"), PathRules::Unix)
}

fn line(args: Result<Vec<String>, HerdrError>) -> String {
    args.unwrap().join(" ")
}

#[test]
fn cli_rejects_relative_paths_before_invocation() {
    let provider = provider();
    assert!(matches!(
        provider.worktree_list(&PathBuf::new("relative")),
        Err(HerdrError::InvalidArgument(_))
    ));
    assert!(matches!(
        provider.workspace_create(&PathBuf::new("relative"), true),
        Err(HerdrError::InvalidArgument(_))
    ));
}

#[test]
fn cli_rejects_non_utf8_paths_before_invocation() {
    let error = provider()
        .worktree_create(&WorktreeCreateRequest {
            cwd: PathBuf::from_bytes(b"/repo/invalid-\xff"),
            branch: "feature".into(),
            base: None,
            path: None,
            focus: true,
        })
        .unwrap_err();

    assert!(
        matches!(error, HerdrError::InvalidArgument(message) if message.contains("not valid UTF-8"))
    );

    let error = provider()
        .pane_split(
            &PaneSplitRequest {
                pane_id: "p_root".into(),
                direction: OnOpenPaneDirection::Right,
                ratio: None,
                cwd: PathBuf::from_bytes(b"/repo/invalid-\xff"),
                focus: false,
            },
            None,
        )
        .unwrap_err();
    assert!(
        matches!(error, HerdrError::InvalidArgument(message) if message.contains("not valid UTF-8"))
    );
}

#[test]
fn maps_all_required_error_codes_and_preserves_unknown_errors() {
    let cases = [
        ("ui_busy", "UiBusy"),
        ("plugin_pane_open_failed", "PluginPaneOpenFailed"),
        (
            "worktree_operation_in_progress",
            "WorktreeOperationInProgress",
        ),
        ("stale_worktree_operation", "StaleWorktreeOperation"),
        ("linked_worktree_source", "LinkedWorktreeSource"),
        ("not_git_worktree", "NotGitWorktree"),
        (
            "dirty_worktree_requires_force",
            "DirtyWorktreeRequiresForce",
        ),
        ("worktree_create_failed", "WorktreeCreateFailed"),
        ("worktree_open_failed", "WorktreeOpenFailed"),
        ("worktree_not_found", "WorktreeNotFound"),
    ];
    for (code, expected_variant) in cases {
        let envelope =
            format!(r#"{{"id":"error","error":{{"code":"{code}","message":"details"}}}}"#);
        let error = parse_error_envelope(envelope.as_bytes()).unwrap();
        assert!(
            format!("{error:?}").starts_with(expected_variant),
            "wrong variant for {code}: {error:?}"
        );
    }

    let other = parse_error_envelope(
        br#"{"id":"error","error":{"code":"future_error","message":"details"}}"#,
    )
    .unwrap();
    assert_eq!(
        other,
        HerdrError::Other {
            code: "future_error".into(),
            message: "details".into()
        }
    );
}

#[test]
fn only_complete_error_envelopes_are_errors() {
    assert_eq!(parse_error_envelope(b"not json"), None);
    assert_eq!(parse_error_envelope(br#"{"error":{"code":"x"}}"#), None);
    assert_eq!(
        error_of_fields(JsonField::Text("x".into()), JsonField::Refused),
        None
    );
    assert_eq!(
        error_of_fields(
            JsonField::Text("ui_busy".into()),
            JsonField::Text("m".into())
        ),
        Some(HerdrError::UiBusy("m".into()))
    );
}

#[test]
fn cli_builds_the_exact_list_calls() {
    assert_eq!(provider().workspace_list().join(" "), "workspace list");
    assert_eq!(provider().pane_list().join(" "), "pane list");
    assert_eq!(
        line(provider().worktree_list(&PathBuf::new("/repo"))),
        "worktree list --cwd /repo --json"
    );
}

#[test]
fn cli_builds_the_exact_open_calls() {
    assert_eq!(
        line(provider().worktree_open(
            &PathBuf::new("/repo"),
            &WorktreeOpenTarget::Path(PathBuf::new("/repo")),
            true,
        )),
        "worktree open --cwd /repo --path /repo --focus"
    );
    assert_eq!(
        line(provider().worktree_open(
            &PathBuf::new("/repo"),
            &WorktreeOpenTarget::Branch("feature".into()),
            true,
        )),
        "worktree open --cwd /repo --branch feature --focus"
    );
}

#[test]
fn cli_builds_the_exact_create_remove_and_focus_calls() {
    assert_eq!(
        line(provider().worktree_create(&WorktreeCreateRequest {
            cwd: PathBuf::new("/repo"),
            branch: "feature".into(),
            base: Some("main".into()),
            path: Some(PathBuf::new("/custom/repo-feature")),
            focus: true,
        })),
        "worktree create --cwd /repo --branch feature --base main --path /custom/repo-feature --focus"
    );
    assert_eq!(
        line(provider().worktree_remove("w_2", true)),
        "worktree remove --workspace w_2 --force"
    );
    assert_eq!(
        line(provider().workspace_create(&PathBuf::new("/plain folder"), true)),
        "workspace create --cwd /plain folder --focus"
    );
    assert_eq!(
        line(provider().workspace_focus("w_1")),
        "workspace focus w_1"
    );
    assert!(matches!(
        provider().workspace_focus(" "),
        Err(HerdrError::InvalidArgument(_))
    ));
}

#[test]
fn cli_builds_the_exact_tab_and_pane_calls() {
    assert_eq!(
        line(provider().tab_create(&TabCreateRequest {
            workspace_id: "w_1".into(),
            cwd: PathBuf::new("/repo checkout"),
            label: Some("server".into()),
        })),
        "tab create --workspace w_1 --cwd /repo checkout --label server --no-focus"
    );
    assert_eq!(
        line(provider().tab_create(&TabCreateRequest {
            workspace_id: "w_1".into(),
            cwd: PathBuf::new("/repo"),
            label: None,
        })),
        "tab create --workspace w_1 --cwd /repo --no-focus"
    );
    let split = |ratio: f32| PaneSplitRequest {
        pane_id: "p_root".into(),
        direction: OnOpenPaneDirection::Right,
        ratio: Some(Ratio {
            bits: ratio.to_bits(),
        }),
        cwd: PathBuf::new("/repo checkout"),
        focus: false,
    };
    assert_eq!(
        line(provider().pane_split(&split(0.4), Some("0.4"))),
        "pane split p_root --direction right --ratio 0.4 --cwd /repo checkout --no-focus"
    );
    assert!(matches!(
        provider().pane_split(&split(1.0), Some("1")),
        Err(HerdrError::InvalidArgument(_))
    ));
    assert_eq!(
        line(provider().pane_run("p_2", "printf ONOPEN_OK")),
        "pane run p_2 printf ONOPEN_OK"
    );
    assert_eq!(line(provider().pane_focus("p_2")), "pane focus p_2");
    assert_eq!(
        line(provider().notification_show("herdr-kiosk", "on_open failed")),
        "notification show herdr-kiosk --body on_open failed"
    );
}

#[test]
fn a_run_fails_by_its_envelope_or_its_status() {
    let provider = provider();
    assert_eq!(
        provider.read_output(true, "exit status: 0", b"future non-json response".to_vec(), b""),
        Ok(b"future non-json response".to_vec())
    );
    assert_eq!(
        provider.read_output(
            false,
            "exit status: 1",
            Vec::new(),
            br#"{"error":{"code":"pane_run_failed","message":"pane unavailable"}}"#,
        ),
        Err(HerdrError::Other {
            code: "pane_run_failed".into(),
            message: "pane unavailable".into(),
        })
    );
    assert_eq!(
        provider.read_output(false, "exit status: 1", Vec::new(), b" broken \n"),
        Err(HerdrError::Invocation(
            "/does/not/exist exited with exit status: 1: broken".into()
        ))
    );
    assert_eq!(
        provider.read_output(
            true,
            "exit status: 0",
            br#"{"error":{"code":"worktree_create_failed","message":"disk full"}}"#.to_vec(),
            b"",
        ),
        Err(HerdrError::WorktreeCreateFailed("disk full".into()))
    );
}

#[test]
fn unreadable_answers_to_finished_operations_are_warnings() {
    let created = created_answer(Err("missing field".into()));
    assert!(created.opened.is_none());
    assert!(created.warning.as_deref().is_some_and(|warning| {
        warning.contains("completed the operation") && warning.contains("unexpected response")
    }));
    let opened = opened_answer(Ok((
        OpenedWorktree {
            workspace_id: "w_1".into(),
            root_pane_id: "p_root".into(),
            path: "/repo".into(),
        },
        false,
    )));
    assert_eq!(opened.already_open, Some(false));
    assert!(opened.warning.is_none());
    assert!(opened_answer(Err("x".into())).warning.is_some());
    assert!(removed_answer(Ok(())).warning.is_none());
    assert!(removed_answer(Err("x".into())).warning.is_some());
    assert_eq!(
        workspace_answer(Ok("w_1".into())).workspace_id.as_deref(),
        Some("w_1")
    );
    assert!(workspace_answer(Err("x".into())).warning.is_some());
    assert_eq!(
        unreadable_answer("bad", "\"{}\"").to_text(),
        "invalid herdr response: bad; stdout was \"{}\""
    );
    assert_eq!(
        invalid_response("bad", b" {\"a\"}\t\xff \n").to_text(),
        "invalid herdr response: bad; stdout was \"{\\\"a\\\"}\\t\u{fffd}\""
    );
}

fn rect(x: u16, y: u16) -> PaneRect {
    PaneRect {
        x,
        y,
        width: 10,
        height: 10,
    }
}

#[test]
fn focus_walks_pane_by_pane_toward_its_target() {
    assert_eq!(direction_toward(rect(0, 0), rect(20, 0)), "right");
    assert_eq!(direction_toward(rect(20, 0), rect(0, 0)), "left");
    assert_eq!(direction_toward(rect(0, 0), rect(0, 20)), "down");
    let panes = || {
        vec![
            LayoutPane {
                pane_id: "p_1".into(),
                rect: rect(0, 0),
            },
            LayoutPane {
                pane_id: "p_2".into(),
                rect: rect(10, 0),
            },
        ]
    };
    let mut walk = FocusWalk::start("p_2", "p_1".into(), panes()).unwrap();
    assert_eq!(
        walk.next_step(),
        FocusStep::Move {
            direction: "right",
            from: "p_1".into(),
        }
    );
    walk.moved(Some("p_2".into()));
    assert_eq!(walk.next_step(), FocusStep::Arrived);
    assert!(FocusWalk::start("p_9", "p_1".into(), panes()).is_err());
    assert!(wants_direction(&HerdrError::Invocation(
        "usage: herdr pane focus --direction".into()
    )));
    assert!(!wants_direction(&HerdrError::UiBusy("pane focus --direction".into())));
}

#[test]
fn focused_pane_cwd_takes_precedence_and_unknown_fields_are_ignored() {
    let context = PluginContext::from_json(
        r#"{
            "workspace_cwd": "/workspace",
            "focused_pane_cwd": "/focused",
            "workspace_id": "w_1",
            "future_field": true
        }"#,
    )
    .unwrap();
    assert_eq!(context.current_cwd(), Some(&PathBuf::new("/focused")));
}

#[test]
fn workspace_cwd_is_the_fallback() {
    let context = PluginContext::from_json(r#"{"workspace_cwd":"/workspace"}"#).unwrap();
    assert_eq!(context.current_cwd(), Some(&PathBuf::new("/workspace")));
}

#[test]
fn empty_focused_pane_cwd_falls_back_to_workspace() {
    let context =
        PluginContext::from_json(r#"{"focused_pane_cwd":"","workspace_cwd":"/workspace"}"#)
            .unwrap();
    assert_eq!(context.current_cwd(), Some(&PathBuf::new("/workspace")));
}

#[test]
fn invalid_context_is_reported() {
    assert!(PluginContext::from_json("not json").is_err());
    assert!(PluginContext::from_json(r#"{"workspace_cwd":1}"#).is_err());
    assert!(PluginContext::from_fields(JsonField::Missing, JsonField::Null).is_ok());
    assert!(PluginContext::from_fields(JsonField::Refused, JsonField::Null).is_err());
    assert!(PluginContext::from_json("1").is_err());
}

#[test]
fn the_focus_is_moved_with_the_exact_calls() {
    assert_eq!(layout_args("p_1"), ["pane", "layout", "--pane", "p_1"]);
    assert_eq!(tab_args("t_1"), ["tab", "focus", "t_1"]);
    assert_eq!(
        move_args("left", "p_1"),
        ["pane", "focus", "--direction", "left", "--pane", "p_1"]
    );
}

#[test]
fn records_may_be_written_as_arrays() {
    let busy = Some(HerdrError::UiBusy("m".into()));
    assert_eq!(parse_error_envelope(br#"{"error":["ui_busy","m"]}"#), busy);
    assert_eq!(parse_error_envelope(br#"[["ui_busy","m"]]"#), busy);
    assert_eq!(parse_error_envelope(br#"[{"message":"m","code":"ui_busy"}]"#), busy);
    assert_eq!(parse_error_envelope(br#"[["ui_busy","m"],1]"#), None);
    assert_eq!(parse_error_envelope(br#"{"error":["ui_busy","m",1]}"#), None);
    assert_eq!(parse_error_envelope(br#"{"error":["ui_busy"]}"#), None);
    let context = PluginContext::from_json(r#"[null,"/workspace"]"#).unwrap();
    assert_eq!(context.current_cwd(), Some(&PathBuf::new("/workspace")));
    assert!(PluginContext::from_json(r#"["/focused"]"#).is_err());
    assert!(PluginContext::from_json(r#"[null,null,null]"#).is_err());
    let elements = || Some(vec![b"1".to_vec(), b"2".to_vec()]);
    assert_eq!(
        find_member(None, None, elements(), "b", 1, 2),
        JsonMember::Written(b"2".to_vec())
    );
    assert_eq!(
        find_member(None, None, elements(), "b", 1, 3),
        JsonMember::Refused
    );
    assert_eq!(
        find_member(None, None, None, "b", 0, 1),
        JsonMember::Refused
    );
}

#[test]
fn a_member_that_is_written_twice_is_refused() {
    for envelope in [
        r#"{"error":{"code":"ui_busy","message":"m"},"error":{"code":"x","message":"m"}}"#,
        r#"{"error":{"code":"ui_busy","code":"ui_busy","message":"m"}}"#,
        r#"{"error":{"code":"ui_busy","message":"m","message":"n"}}"#,
    ] {
        assert_eq!(parse_error_envelope(envelope.as_bytes()), None, "{envelope}");
    }
    assert!(PluginContext::from_json(r#"{"workspace_cwd":"/a","workspace_cwd":"/a"}"#).is_err());
    assert!(
        PluginContext::from_json(r#"{"focused_pane_cwd":null,"focused_pane_cwd":"/a"}"#).is_err()
    );
    let names = ["a", "b", "a"].map(String::from).to_vec();
    assert_eq!(count_times(&names, "a"), 2);
    let text = Some(b"1".to_vec());
    let found = |name: &str| find_member(Some(names.clone()), text.clone(), None, name, 0, 1);
    assert_eq!(found("a"), JsonMember::Refused);
    assert_eq!(found("b"), JsonMember::Written(b"1".to_vec()));
    assert_eq!(found("c"), JsonMember::Missing);
}

#[test]
fn what_an_unknown_member_holds_is_ignored() {
    assert_eq!(
        parse_error_envelope(
            br#"{"n":1e999,"n":-1e999,"error":{"code":"ui_busy","x":[1e999],"message":"m","x":0}}"#
        ),
        Some(HerdrError::UiBusy("m".into()))
    );
    let context =
        PluginContext::from_json(r#"{"a.b":1e400,"a.b":{},"workspace_cwd":"/workspace"}"#).unwrap();
    assert_eq!(context.current_cwd(), Some(&PathBuf::new("/workspace")));
    let escaped =
        PluginContext::from_json(r#"{"\u0077orkspace_cwd":"\/work\u0073pace"}"#).unwrap();
    assert_eq!(escaped.current_cwd(), Some(&PathBuf::new("/workspace")));
    assert!(PluginContext::from_json(r#"{"workspace_cwd":"/workspace"} x"#).is_err());
}

#[test]
fn requests_take_paths_that_are_absolute_by_the_rules_of_the_host() {
    let path = PathBuf::new(r"C:\repo");
    let listed = |rules: PathRules| CliHerdrProvider::new(PathBuf::new("herdr"), rules).worktree_list(&path);
    assert!(listed(PathRules::Windows).is_ok());
    assert!(listed(PathRules::Unix).is_err());
}
