use herdr_kiosk::config::OnOpenConfig;
use herdr_kiosk::git::cli::{
    build_repo_stub, checked_worktrees, default_branch, dirty_worktree_refusal, fetch_outcome,
    main_repo_of_linked_worktree, parse_remote_branches_for_remote, poll_fetch, run_outcome,
    tracking_branch_already_exists, tracking_outcome, utf8_lines, worktree_remove_outcome,
    ChildState, PollStep, RemoveOutcome, CHILD_POLL_MILLIS, FETCH_TIMEOUT_MILLIS,
};
use herdr_kiosk::git::command::CliGitProvider;
use herdr_kiosk::git::provider::{
    is_dirty_worktree_requires_force, is_local_branch_already_exists, DirtyWorktreeRequiresForce,
    GitError, LocalBranchAlreadyExists,
};
use herdr_kiosk::git::scan::{EntryReport, Scan};
use herdr_kiosk::git::parse_worktree_porcelain;
use herdr_kiosk::path::{PathBuf, PathRules};
use herdr_kiosk::spawn::{Call, Next, Operation};

#[test]
fn remote_parser_strips_the_exact_remote_and_skips_symbolic_head() {
    let output = b"team/origin/HEAD\0refs/remotes/team/origin/main\n\
                   team/origin/feature\0\n\
                   team/origin/topic/nested\0\n\
                   other/branch\0\n";

    assert_eq!(
        parse_remote_branches_for_remote(output, "team/origin").items,
        ["feature", "topic/nested"]
    );
}

#[test]
fn branch_parser_skips_non_utf8_refs_and_reports_them_once() {
    let listed = utf8_lines(b"main\ninvalid-\xff\nfeature\n");

    assert_eq!(listed.items, ["main", "feature"]);
    assert!(listed.skipped_unsupported_refs);

    let remote = parse_remote_branches_for_remote(
        b"origin/main\0\norigin/invalid-\xff\0\norigin/feature\0\n",
        "origin",
    );
    assert_eq!(remote.items, ["main", "feature"]);
    assert!(remote.skipped_unsupported_refs);
}

#[test]
fn missing_search_directory_is_an_error() {
    let root = PathBuf::new("/definitely/not/here/herdr-kiosk");
    let mut scan = Scan::start(&root, root.clone(), 1, PathRules::Unix).unwrap();
    let target = scan.next_directory().unwrap();
    let error = scan
        .directory_unreadable(&target, "No such file or directory (os error 2)")
        .unwrap_err();
    assert!(error.contains("failed to read search directory"));
}

#[test]
fn nested_unreadable_directory_is_a_warning() {
    let root = PathBuf::new("/search");
    let mut scan = Scan::start(&root, root.clone(), 3, PathRules::Unix).unwrap();
    let target = scan.next_directory().unwrap();
    assert_eq!(
        scan.entry(
            &target,
            EntryReport::PlainDirectory {
                path: PathBuf::new("/search/blocked"),
            }
        ),
        None
    );
    let nested = scan.next_directory().unwrap();
    assert_eq!(nested.path, PathBuf::new("/search/blocked"));
    assert!(scan.directory_unreadable(&nested, "denied").is_ok());
    assert_eq!(scan.warnings.len(), 1);
    assert_eq!(scan.warnings[0].path, PathBuf::new("/search/blocked"));
    assert!(scan.next_directory().is_none());
}

#[test]
fn scan_emits_each_repository_once_and_does_not_descend_into_it() {
    let root = PathBuf::new("/search");
    let mut scan = Scan::start(&root, root.clone(), 3, PathRules::Unix).unwrap();
    let target = scan.next_directory().unwrap();
    let repo = || EntryReport::Repository {
        root: PathBuf::new("/search/repo"),
    };
    assert_eq!(
        scan.entry(&target, repo()),
        Some(PathBuf::new("/search/repo"))
    );
    assert_eq!(scan.entry(&target, EntryReport::NotDirectory), None);
    assert!(scan.next_directory().is_none());
}

#[test]
fn records_remote_for_tracking_branch() {
    let next = Operation::open_remote_branch(
        PathBuf::new("/repo"),
        "feature".into(),
        "upstream".into(),
        OnOpenConfig::default(),
    );
    match next {
        Next::Ask(
            _,
            Call::CreateTrackingBranch {
                repo_path,
                branch,
                remote,
            },
        ) => assert_eq!(
            [(repo_path, branch, remote)],
            [(PathBuf::new("/repo"), "feature".into(), "upstream".into())]
        ),
        other => panic!("unexpected {other:?}"),
    }
}

#[test]
fn parses_multiple_worktrees() {
    let output = b"worktree /home/user/project\0HEAD abc123\0branch refs/heads/main\0\0worktree /home/user/project-feat\0HEAD def456\0branch refs/heads/feat/thing\0\0";
    let worktrees = parse_worktree_porcelain(output).items;
    assert_eq!(worktrees.len(), 2);
    assert_eq!(worktrees[0].path, PathBuf::new("/home/user/project"));
    assert_eq!(worktrees[1].branch.as_deref(), Some("feat/thing"));
}

#[test]
fn parses_detached_and_unterminated_entries() {
    let detached =
        parse_worktree_porcelain(b"worktree /home/user/project\0HEAD abc123\0detached\0\0").items;
    assert_eq!(detached.len(), 1);
    assert!(detached[0].branch.is_none());

    let unterminated =
        parse_worktree_porcelain(b"worktree /home/user/project\0branch refs/heads/main").items;
    assert_eq!(unterminated[0].branch.as_deref(), Some("main"));
}

#[test]
fn empty_porcelain_has_no_worktrees() {
    assert!(parse_worktree_porcelain(b"").items.is_empty());
}

#[test]
fn preserves_newlines_in_worktree_paths() {
    let worktrees = parse_worktree_porcelain(
        b"worktree /home/user/project\nfeature\0HEAD abc123\0branch refs/heads/feature\0\0",
    )
    .items;

    assert_eq!(worktrees.len(), 1);
    assert_eq!(
        worktrees[0].path,
        PathBuf::new("/home/user/project\nfeature")
    );
    assert_eq!(worktrees[0].branch.as_deref(), Some("feature"));
}

#[test]
fn non_utf8_checked_out_branch_does_not_reject_worktree_listing() {
    let listed = parse_worktree_porcelain(
        b"worktree /repo\0HEAD abc123\0branch refs/heads/invalid-\xff\0\0",
    );

    assert_eq!(listed.items.len(), 1);
    assert!(listed.items[0].branch.is_none());
    assert!(listed.skipped_unsupported_refs);
}

#[test]
fn default_branch_prefers_the_remote_head_then_common_names() {
    let locals = vec!["topic".to_string(), "master".into(), "main".into()];
    assert_eq!(
        default_branch(Some(b"refs/remotes/origin/trunk\n"), &locals).as_deref(),
        Some("trunk")
    );
    assert_eq!(default_branch(None, &locals).as_deref(), Some("main"));
    assert_eq!(default_branch(None, &vec!["topic".to_string()]), None);
}

#[test]
fn git_refusals_are_told_apart() {
    assert!(tracking_branch_already_exists(
        "fatal: a branch named 'feature' already exists",
        "feature"
    ));
    assert!(!tracking_branch_already_exists(
        "fatal: a branch named 'other' already exists",
        "feature"
    ));
    let dirty = "fatal: '/wt' contains modified or untracked files, use --force to delete it";
    assert!(dirty_worktree_refusal(dirty));
    let checkout = PathBuf::new("/wt");
    assert_eq!(
        worktree_remove_outcome(true, "", false, true, &checkout),
        RemoveOutcome::Removed
    );
    assert_eq!(
        worktree_remove_outcome(false, dirty, false, true, &checkout),
        RemoveOutcome::DirtyRequiresForce
    );
    assert!(matches!(
        worktree_remove_outcome(false, dirty, true, true, &checkout),
        RemoveOutcome::Failed(_)
    ));

    let exists = GitError::LocalBranchAlreadyExists(LocalBranchAlreadyExists::new("feature"));
    assert!(is_local_branch_already_exists(&exists));
    assert!(!is_dirty_worktree_requires_force(&exists));
    let forced = GitError::DirtyWorktreeRequiresForce(DirtyWorktreeRequiresForce);
    assert!(is_dirty_worktree_requires_force(&forced));
    assert!(exists.to_text().contains("feature"));
}

#[test]
fn linked_worktrees_lead_to_their_main_checkout() {
    let path = PathBuf::new("/work/feature");
    assert_eq!(
        main_repo_of_linked_worktree(&path, "gitdir: /work/main/.git/worktrees/feature\n", PathRules::Unix),
        Some(PathBuf::new("/work/main"))
    );
    assert_eq!(
        main_repo_of_linked_worktree(&path, "gitdir: /work/main/.git/modules/feature\n", PathRules::Unix),
        None
    );
    let stub = build_repo_stub(&PathBuf::new("/work/main"), PathRules::Unix).unwrap();
    assert_eq!(stub.name, "main");
    assert!(stub.worktrees.is_empty());
    assert!(build_repo_stub(&PathBuf::new("/"), PathRules::Unix).is_none());
}

#[test]
fn a_fetch_is_never_waited_for_past_its_time() {
    assert_eq!(
        poll_fetch(ChildState::Exited, 0, FETCH_TIMEOUT_MILLIS),
        PollStep::ReadResult
    );
    assert_eq!(
        poll_fetch(ChildState::Lost, 0, FETCH_TIMEOUT_MILLIS),
        PollStep::GiveUp
    );
    assert_eq!(
        poll_fetch(ChildState::Running, 0, FETCH_TIMEOUT_MILLIS),
        PollStep::Sleep(CHILD_POLL_MILLIS)
    );
    assert_eq!(
        poll_fetch(ChildState::Running, 70, 75),
        PollStep::Sleep(5)
    );
    assert_eq!(poll_fetch(ChildState::Running, 75, 75), PollStep::TimeOut);
}

#[test]
fn a_git_command_that_failed_says_where_and_why() {
    let repo = PathBuf::new("/repo");
    let args = vec!["worktree".to_owned(), "prune".to_owned()];
    assert_eq!(run_outcome(true, &args, &repo, "ignored"), Ok(()));
    assert_eq!(
        run_outcome(false, &args, &repo, "  fatal: no\n"),
        Err("git worktree prune failed in /repo: fatal: no".to_owned())
    );
    assert_eq!(fetch_outcome(true, "origin", &repo, ""), Ok(()));
    assert_eq!(
        fetch_outcome(false, "origin", &repo, "timeout\n"),
        Err("git fetch origin failed in /repo: timeout".to_owned())
    );
}

#[test]
fn a_tracking_branch_that_is_there_already_is_told_apart() {
    let repo = PathBuf::new("/repo");
    let taken = "fatal: a branch named 'feature' already exists\n";
    assert!(tracking_outcome(true, taken, &repo, "feature", "origin").is_ok());
    let exists = tracking_outcome(false, taken, &repo, "feature", "origin").unwrap_err();
    assert!(is_local_branch_already_exists(&exists));
    let other = tracking_outcome(false, "fatal: no\n", &repo, "feature", "origin").unwrap_err();
    assert_eq!(
        other.to_text(),
        "git branch --track feature origin/feature failed in /repo: fatal: no"
    );
}

#[test]
fn a_repository_without_checkouts_is_an_error() {
    let repo = PathBuf::new("/repo");
    assert_eq!(
        checked_worktrees(parse_worktree_porcelain(b""), &repo).unwrap_err(),
        "git worktree list returned no worktrees for /repo"
    );
    let listed = parse_worktree_porcelain(b"worktree /repo\0branch refs/heads/main\0\0");
    assert_eq!(checked_worktrees(listed, &repo).unwrap().items.len(), 1);
}

#[test]
fn git_is_run_with_the_exact_arguments() {
    let git = CliGitProvider;
    assert_eq!(git.list_branches(), ["branch", "--format=%(refname:short)"]);
    assert_eq!(
        git.list_remote_branches_for_remote("origin"),
        [
            "for-each-ref",
            "--format=%(refname:lstrip=2)%00%(symref)",
            "refs/remotes/origin/"
        ]
    );
    assert_eq!(git.list_worktrees(), ["worktree", "list", "--porcelain", "-z"]);
    assert_eq!(git.list_remotes(), ["remote"]);
    assert_eq!(git.default_branch(), ["symbolic-ref", "refs/remotes/origin/HEAD"]);
    assert_eq!(
        git.is_valid_branch_name("a b"),
        ["check-ref-format", "--branch", "a b"]
    );
    assert_eq!(
        git.create_tracking_branch("feature", "upstream"),
        ["branch", "--track", "feature", "upstream/feature"]
    );
    assert_eq!(git.fetch_remote("origin"), ["fetch", "origin"]);
    assert_eq!(git.prune_worktrees(), ["worktree", "prune", "--expire", "now"]);
    let removal = |words: &[&str]| -> Vec<PathBuf> {
        words.iter().map(|word| PathBuf::new(word)).collect()
    };
    assert_eq!(
        git.remove_worktree(&PathBuf::new("/wt"), false),
        removal(&["worktree", "remove", "/wt"])
    );
    assert_eq!(
        git.remove_worktree(&PathBuf::new("/wt"), true),
        removal(&["worktree", "remove", "--force", "/wt"])
    );
}
