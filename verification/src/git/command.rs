//! The arguments with which git is run.

use crate::path::PathBuf;
use crate::text::{concat3, owned};
use vstd::prelude::*;
use vstd::string::*;
use vstd::utf8::encode_utf8;

verus! {

/// Git, run as a program in a repository.
#[derive(Debug, Clone, Copy, PartialEq, Eq, Structural)]
pub struct CliGitProvider;

/// The arguments that remove a checkout, the path last.
pub open spec fn removal_line(worktree_path: Seq<u8>, force: bool) -> Seq<Seq<u8>> {
    let start = seq![encode_utf8("worktree"@), encode_utf8("remove"@)];
    let flagged = if force {
        start.push(encode_utf8("--force"@))
    } else {
        start
    };
    flagged.push(worktree_path)
}

impl CliGitProvider {
    /// Lists the local branches, a name on each line.
    pub fn list_branches(&self) -> (args: Vec<String>)
        ensures
            args.deep_view() == seq!["branch"@, "--format=%(refname:short)"@],
    {
        let args = vec![owned("branch"), owned("--format=%(refname:short)")];
        assert(args.deep_view() =~= seq!["branch"@, "--format=%(refname:short)"@]);
        args
    }

    /// Lists the known branches of one remote, each with the reference that it points to.
    pub fn list_remote_branches_for_remote(&self, remote: &str) -> (args: Vec<String>)
        ensures
            args.deep_view() == seq![
                "for-each-ref"@,
                "--format=%(refname:lstrip=2)%00%(symref)"@,
                "refs/remotes/"@ + remote@ + "/"@,
            ],
    {
        let args = vec![
            owned("for-each-ref"),
            owned("--format=%(refname:lstrip=2)%00%(symref)"),
            concat3("refs/remotes/", remote, "/"),
        ];
        assert(args.deep_view() =~= seq![
            "for-each-ref"@,
            "--format=%(refname:lstrip=2)%00%(symref)"@,
            "refs/remotes/"@ + remote@ + "/"@,
        ]);
        args
    }

    /// Lists the checkouts.
    pub fn list_worktrees(&self) -> (args: Vec<String>)
        ensures
            args.deep_view() == seq!["worktree"@, "list"@, "--porcelain"@, "-z"@],
    {
        let args = vec![owned("worktree"), owned("list"), owned("--porcelain"), owned("-z")];
        assert(args.deep_view() =~= seq!["worktree"@, "list"@, "--porcelain"@, "-z"@]);
        args
    }

    /// Lists the remotes.
    pub fn list_remotes(&self) -> (args: Vec<String>)
        ensures
            args.deep_view() == seq!["remote"@],
    {
        let args = vec![owned("remote")];
        assert(args.deep_view() =~= seq!["remote"@]);
        args
    }

    /// Asks for the branch that the remote `origin` starts from.
    pub fn default_branch(&self) -> (args: Vec<String>)
        ensures
            args.deep_view() == seq!["symbolic-ref"@, "refs/remotes/origin/HEAD"@],
    {
        let args = vec![owned("symbolic-ref"), owned("refs/remotes/origin/HEAD")];
        assert(args.deep_view() =~= seq!["symbolic-ref"@, "refs/remotes/origin/HEAD"@]);
        args
    }

    /// Asks whether a branch may have a name.
    pub fn is_valid_branch_name(&self, branch: &str) -> (args: Vec<String>)
        ensures
            args.deep_view() == seq!["check-ref-format"@, "--branch"@, branch@],
    {
        let args = vec![owned("check-ref-format"), owned("--branch"), owned(branch)];
        assert(args.deep_view() =~= seq!["check-ref-format"@, "--branch"@, branch@]);
        args
    }

    /// Makes a local branch that tracks the one of its name on a remote.
    pub fn create_tracking_branch(&self, branch: &str, remote: &str) -> (args: Vec<String>)
        ensures
            args.deep_view() == seq![
                "branch"@,
                "--track"@,
                branch@,
                remote@ + "/"@ + branch@,
            ],
    {
        let args = vec![
            owned("branch"),
            owned("--track"),
            owned(branch),
            concat3(remote, "/", branch),
        ];
        assert(args.deep_view() =~= seq![
            "branch"@,
            "--track"@,
            branch@,
            remote@ + "/"@ + branch@,
        ]);
        args
    }

    /// Fetches a remote.
    pub fn fetch_remote(&self, remote: &str) -> (args: Vec<String>)
        ensures
            args.deep_view() == seq!["fetch"@, remote@],
    {
        let args = vec![owned("fetch"), owned(remote)];
        assert(args.deep_view() =~= seq!["fetch"@, remote@]);
        args
    }

    /// Removes a checkout; the arguments are paths, since that of a checkout may hold any bytes.
    pub fn remove_worktree(&self, worktree_path: &PathBuf, force: bool) -> (args: Vec<PathBuf>)
        ensures
            args.deep_view() == removal_line(worktree_path@, force),
    {
        let mut args = vec![PathBuf::new("worktree"), PathBuf::new("remove")];
        if force {
            args.push(PathBuf::new("--force"));
        }
        args.push(worktree_path.clone());
        assert(args.deep_view() =~= removal_line(worktree_path@, force));
        args
    }

    /// Forgets the checkouts that are gone.
    pub fn prune_worktrees(&self) -> (args: Vec<String>)
        ensures
            args.deep_view() == seq!["worktree"@, "prune"@, "--expire"@, "now"@],
    {
        let args = vec![owned("worktree"), owned("prune"), owned("--expire"), owned("now")];
        assert(args.deep_view() =~= seq!["worktree"@, "prune"@, "--expire"@, "now"@]);
        args
    }
}

} // verus!
