//! How a git operation can fail.

use crate::text::concat3;
use vstd::prelude::*;
use vstd::string::*;

verus! {

/// A branch could not be created because there is a local one of its name.
#[derive(Debug, PartialEq, Eq)]
pub struct LocalBranchAlreadyExists {
    pub branch: String,
}

impl LocalBranchAlreadyExists {
    pub fn new(branch: &str) -> (error: LocalBranchAlreadyExists)
        ensures
            error.branch@ == branch@,
    {
        LocalBranchAlreadyExists { branch: crate::text::owned(branch) }
    }

    pub fn to_text(&self) -> (text: String)
        ensures
            text@ == "local branch '"@ + self.branch@ + "' already exists"@,
    {
        concat3("local branch '", self.branch.as_str(), "' already exists")
    }
}

/// A checkout holds changes, and its removal was not forced.
#[derive(Debug, Clone, Copy, PartialEq, Eq, Structural)]
pub struct DirtyWorktreeRequiresForce;

impl DirtyWorktreeRequiresForce {
    pub fn to_text(&self) -> (text: &'static str)
        ensures
            text@ == "worktree contains modified or untracked files"@,
    {
        "worktree contains modified or untracked files"
    }
}

/// Why a git operation failed.
#[derive(Debug, PartialEq, Eq)]
pub enum GitError {
    LocalBranchAlreadyExists(LocalBranchAlreadyExists),
    DirtyWorktreeRequiresForce(DirtyWorktreeRequiresForce),
    Other(String),
}

#[verifier::ext_equal]
pub enum GitErrorV {
    LocalBranchAlreadyExists(Seq<char>),
    DirtyWorktreeRequiresForce,
    Other(Seq<char>),
}

impl DeepView for GitError {
    type V = GitErrorV;

    open spec fn deep_view(&self) -> GitErrorV {
        match self {
            GitError::LocalBranchAlreadyExists(error) => GitErrorV::LocalBranchAlreadyExists(
                error.branch@,
            ),
            GitError::DirtyWorktreeRequiresForce(_) => GitErrorV::DirtyWorktreeRequiresForce,
            GitError::Other(message) => GitErrorV::Other(message@),
        }
    }
}

impl GitErrorV {
    /// The error for people to read.
    pub open spec fn text(self) -> Seq<char> {
        match self {
            GitErrorV::LocalBranchAlreadyExists(branch) => "local branch '"@ + branch
                + "' already exists"@,
            GitErrorV::DirtyWorktreeRequiresForce =>
                "worktree contains modified or untracked files"@,
            GitErrorV::Other(message) => message,
        }
    }
}

impl GitError {
    pub fn to_text(&self) -> (text: String)
        ensures
            text@ == self.deep_view().text(),
    {
        match self {
            GitError::LocalBranchAlreadyExists(error) => error.to_text(),
            GitError::DirtyWorktreeRequiresForce(error) => crate::text::owned(error.to_text()),
            GitError::Other(message) => message.clone(),
        }
    }
}

pub fn is_local_branch_already_exists(error: &GitError) -> (answer: bool)
    ensures
        answer == (error.deep_view() is LocalBranchAlreadyExists),
{
    match error {
        GitError::LocalBranchAlreadyExists(_) => true,
        _ => false,
    }
}

pub fn is_dirty_worktree_requires_force(error: &GitError) -> (answer: bool)
    ensures
        answer == (error.deep_view() is DirtyWorktreeRequiresForce),
{
    match error {
        GitError::DirtyWorktreeRequiresForce(_) => true,
        _ => false,
    }
}

} // verus!
