//! A repository with its checkouts.

use crate::path::PathBuf;
use crate::text::copy_optional_text;
use vstd::prelude::*;

verus! {

/// One checkout of a repository.
#[derive(Debug, PartialEq, Eq)]
pub struct Worktree {
    pub path: PathBuf,
    pub branch: Option<String>,
}

pub struct WorktreeV {
    pub path: Seq<u8>,
    pub branch: Option<Seq<char>>,
}

impl DeepView for Worktree {
    type V = WorktreeV;

    open spec fn deep_view(&self) -> WorktreeV {
        WorktreeV { path: self.path@, branch: self.branch.deep_view() }
    }
}

impl Clone for Worktree {
    fn clone(&self) -> (worktree: Self)
        ensures
            worktree.deep_view() == self.deep_view(),
    {
        Worktree { path: self.path.clone(), branch: copy_optional_text(&self.branch) }
    }
}

pub fn copy_worktrees(worktrees: &Vec<Worktree>) -> (copy: Vec<Worktree>)
    ensures
        copy.deep_view() == worktrees.deep_view(),
{
    let mut copy: Vec<Worktree> = Vec::new();
    let mut i: usize = 0;
    while i < worktrees.len()
        invariant
            i <= worktrees.len(),
            copy@.len() == i,
            forall|k: int| 0 <= k < i ==> copy@[k].deep_view() == worktrees@[k].deep_view(),
        decreases worktrees.len() - i,
    {
        copy.push(worktrees[i].clone());
        i = i + 1;
    }
    assert(copy.deep_view() =~= worktrees.deep_view());
    copy
}

/// A repository, or a plain folder that is listed beside the repositories.
#[derive(Debug, PartialEq, Eq)]
pub struct Repo {
    pub name: String,
    pub path: PathBuf,
    pub is_git: bool,
    pub worktrees: Vec<Worktree>,
}

pub struct RepoV {
    pub name: Seq<char>,
    pub path: Seq<u8>,
    pub is_git: bool,
    pub worktrees: Seq<WorktreeV>,
}

impl DeepView for Repo {
    type V = RepoV;

    open spec fn deep_view(&self) -> RepoV {
        RepoV {
            name: self.name@,
            path: self.path@,
            is_git: self.is_git,
            worktrees: self.worktrees.deep_view(),
        }
    }
}

impl Clone for Repo {
    fn clone(&self) -> (repo: Self)
        ensures
            repo.deep_view() == self.deep_view(),
    {
        Repo {
            name: self.name.clone(),
            path: self.path.clone(),
            is_git: self.is_git,
            worktrees: copy_worktrees(&self.worktrees),
        }
    }
}

/// A place that could not be scanned, and why.
#[derive(Debug, PartialEq, Eq)]
pub struct ScanWarning {
    pub path: PathBuf,
    pub message: String,
}

pub struct ScanWarningV {
    pub path: Seq<u8>,
    pub message: Seq<char>,
}

impl DeepView for ScanWarning {
    type V = ScanWarningV;

    open spec fn deep_view(&self) -> ScanWarningV {
        ScanWarningV { path: self.path@, message: self.message@ }
    }
}

} // verus!
