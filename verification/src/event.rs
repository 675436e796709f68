//! What happens while the picker runs.

use crate::branches::{BranchEntry, BranchId, BranchIdV};
use crate::git::{Repo, ScanWarning, Worktree};
use crate::herdr::{PaneInfo, WorkspaceInfo, WorktreeInfo};
use crate::path::PathBuf;
use vstd::prelude::*;

verus! {

/// Which list a filter is for.
#[derive(Debug, Clone, Copy, PartialEq, Eq, Structural)]
pub enum FilterTarget {
    Repos,
    Branches,
    Bases,
    Help,
}

/// What a row of a filtered list stands for.
#[derive(Debug, PartialEq, Eq)]
pub enum FilterKey {
    Repo(PathBuf),
    Branch(BranchId),
    Base(String),
    Help(usize),
}

pub enum FilterKeyV {
    Repo(Seq<u8>),
    Branch(BranchIdV),
    Base(Seq<char>),
    Help(usize),
}

impl DeepView for FilterKey {
    type V = FilterKeyV;

    open spec fn deep_view(&self) -> FilterKeyV {
        match self {
            FilterKey::Repo(path) => FilterKeyV::Repo(path@),
            FilterKey::Branch(id) => FilterKeyV::Branch(id.deep_view()),
            FilterKey::Base(name) => FilterKeyV::Base(name@),
            FilterKey::Help(index) => FilterKeyV::Help(*index),
        }
    }
}

impl Clone for FilterKey {
    fn clone(&self) -> (key: Self)
        ensures
            key.deep_view() == self.deep_view(),
    {
        match self {
            FilterKey::Repo(path) => FilterKey::Repo(path.clone()),
            FilterKey::Branch(id) => FilterKey::Branch(id.clone()),
            FilterKey::Base(name) => FilterKey::Base(name.clone()),
            FilterKey::Help(index) => FilterKey::Help(*index),
        }
    }
}

/// How the removal of a checkout ended.
#[derive(Debug, PartialEq, Eq)]
pub enum WorktreeRemovalOutcome {
    Removed { warning: Option<String> },
    DirtyRequiresForce,
    Failed(String),
}

#[verifier::ext_equal]
pub enum WorktreeRemovalOutcomeV {
    Removed { warning: Option<Seq<char>> },
    DirtyRequiresForce,
    Failed(Seq<char>),
}

impl DeepView for WorktreeRemovalOutcome {
    type V = WorktreeRemovalOutcomeV;

    open spec fn deep_view(&self) -> WorktreeRemovalOutcomeV {
        match self {
            WorktreeRemovalOutcome::Removed { warning } => WorktreeRemovalOutcomeV::Removed {
                warning: warning.deep_view(),
            },
            WorktreeRemovalOutcome::DirtyRequiresForce =>
                WorktreeRemovalOutcomeV::DirtyRequiresForce,
            WorktreeRemovalOutcome::Failed(message) => WorktreeRemovalOutcomeV::Failed(message@),
        }
    }
}

/// Why a branch could not be opened.
#[derive(Debug, PartialEq, Eq)]
pub enum BranchOperationFailure {
    Failed(String),
    /// The branch is there, but its checkout could not be opened.
    LocalBranchAvailable { branch_name: String, tracking_created: bool, message: String },
}

#[verifier::ext_equal]
pub enum BranchOperationFailureV {
    Failed(Seq<char>),
    LocalBranchAvailable { branch_name: Seq<char>, tracking_created: bool, message: Seq<char> },
}

impl DeepView for BranchOperationFailure {
    type V = BranchOperationFailureV;

    open spec fn deep_view(&self) -> BranchOperationFailureV {
        match self {
            BranchOperationFailure::Failed(message) => BranchOperationFailureV::Failed(message@),
            BranchOperationFailure::LocalBranchAvailable {
                branch_name,
                tracking_created,
                message,
            } => BranchOperationFailureV::LocalBranchAvailable {
                branch_name: branch_name@,
                tracking_created: *tracking_created,
                message: message@,
            },
        }
    }
}

#[derive(Debug, PartialEq, Eq)]
#[allow(inconsistent_fields)]
pub enum AppEvent {
    /// A repository or folder; open workspaces are matched by its canonical path.
    ReposFound { repo: Repo, canonical_path: PathBuf },
    ScanComplete,
    ScanWarning(ScanWarning),
    FilterCompleted {
        target: FilterTarget,
        generation: u64,
        matches: Vec<(FilterKey, i64)>,
        selected: Option<FilterKey>,
    },
    BranchesLoaded {
        repo_path: PathBuf,
        generation: u64,
        branches: Vec<BranchEntry>,
        worktrees: Vec<Worktree>,
        skipped_unsupported_refs: bool,
    },
    BranchLoadFailed { repo_path: PathBuf, generation: u64, message: String },
    RemoteBranchesLoaded {
        repo_path: PathBuf,
        generation: u64,
        remote: String,
        branches: Vec<BranchEntry>,
        skipped_unsupported_refs: bool,
    },
    RemoteBranchLoadFailed { repo_path: PathBuf, generation: u64, message: String },
    GitFetchCompleted {
        remote: Option<String>,
        branches: Vec<BranchEntry>,
        repo_path: PathBuf,
        generation: u64,
        error: Option<String>,
        is_final: bool,
        skipped_unsupported_refs: bool,
    },
    BranchNameValidated {
        repo_path: PathBuf,
        branch_name: String,
        valid: bool,
        error: Option<String>,
    },
    WorktreeRemovalFinished {
        repo_path: PathBuf,
        branch_name: String,
        worktree_path: PathBuf,
        outcome: WorktreeRemovalOutcome,
    },
    /// The workspaces that are open; the root of each repository is canonical.
    OpenWorkspacesLoaded { workspaces: Vec<WorkspaceInfo> },
    /// The panes that are open; the directory of each one is canonical.
    OpenFolderPanesLoaded { panes: Vec<PaneInfo> },
    OpenWorktreesLoaded { repo_path: PathBuf, generation: u64, worktrees: Vec<WorktreeInfo> },
    OpenWorktreesFailed { repo_path: PathBuf, generation: u64, message: String },
    RepoOpened { warning: Option<String> },
    RepoOpenFailed(String),
    BranchOperationFailed { repo_path: PathBuf, failure: BranchOperationFailure },
    OpenWorkspacesFailed(String),
    OpenFolderPanesFailed(String),
}

} // verus!
