//! What the screens ask for: filtering, loading and opening.

use crate::branches::{BranchId, BranchIdV};
use crate::event::{FilterKey, FilterKeyV, FilterTarget};
use crate::git::{Repo, RepoV};
use crate::path::PathBuf;
use vstd::prelude::*;

verus! {

/// One candidate of a filter.
#[derive(Debug, PartialEq, Eq)]
pub struct FilterItem {
    pub key: FilterKey,
    pub text: String,
}

#[verifier::ext_equal]
pub struct FilterItemV {
    pub key: FilterKeyV,
    pub text: Seq<char>,
}

impl DeepView for FilterItem {
    type V = FilterItemV;

    open spec fn deep_view(&self) -> FilterItemV {
        FilterItemV { key: self.key.deep_view(), text: self.text@ }
    }
}

#[derive(Debug, PartialEq, Eq)]
pub struct FilterRequest {
    pub target: FilterTarget,
    pub generation: u64,
    pub query: String,
    pub items: Vec<FilterItem>,
    pub selected: Option<FilterKey>,
}

#[verifier::ext_equal]
pub struct FilterRequestV {
    pub target: FilterTarget,
    pub generation: u64,
    pub query: Seq<char>,
    pub items: Seq<FilterItemV>,
    pub selected: Option<FilterKeyV>,
}

impl DeepView for FilterRequest {
    type V = FilterRequestV;

    open spec fn deep_view(&self) -> FilterRequestV {
        FilterRequestV {
            target: self.target,
            generation: self.generation,
            query: self.query@,
            items: self.items.deep_view(),
            selected: self.selected.deep_view(),
        }
    }
}

/// What is to be done outside of the picker.
#[derive(Debug, PartialEq, Eq)]
pub enum Effect {
    Filter(FilterRequest),
    LoadBranches { repo: Repo, cwd: Option<PathBuf>, generation: u64 },
    LoadOpenWorktrees { repo_path: PathBuf, generation: u64 },
    OpenRepo { repo_path: PathBuf },
    OpenFolder { path: PathBuf },
    OpenBranch { repo_path: PathBuf, branch_name: String, has_worktree: bool },
    OpenRemoteBranch { repo_path: PathBuf, branch_name: String, remote: String },
    ValidateBranchName { repo_path: PathBuf, branch_name: String },
    CreateBranch { repo_path: PathBuf, branch_name: String, base: String },
    RemoveWorktree {
        repo_path: PathBuf,
        branch_name: String,
        worktree_path: PathBuf,
        force: bool,
    },
    LoadRemotes(RemoteLoading),
    /// The pending removals are to be saved.
    SavePending,
    /// The pending removals are to be saved before the confirmed one starts.
    SavePendingThenRemove,
}

#[verifier::ext_equal]
#[allow(inconsistent_fields)]
pub enum EffectV {
    Filter(FilterRequestV),
    LoadBranches { repo: RepoV, cwd: Option<Seq<u8>>, generation: u64 },
    LoadOpenWorktrees { repo_path: Seq<u8>, generation: u64 },
    OpenRepo { repo_path: Seq<u8> },
    OpenFolder { path: Seq<u8> },
    OpenBranch { repo_path: Seq<u8>, branch_name: Seq<char>, has_worktree: bool },
    OpenRemoteBranch { repo_path: Seq<u8>, branch_name: Seq<char>, remote: Seq<char> },
    ValidateBranchName { repo_path: Seq<u8>, branch_name: Seq<char> },
    CreateBranch { repo_path: Seq<u8>, branch_name: Seq<char>, base: Seq<char> },
    RemoveWorktree {
        repo_path: Seq<u8>,
        branch_name: Seq<char>,
        worktree_path: Seq<u8>,
        force: bool,
    },
    LoadRemotes(RemoteLoadingV),
    SavePending,
    SavePendingThenRemove,
}

impl DeepView for Effect {
    type V = EffectV;

    open spec fn deep_view(&self) -> EffectV {
        match self {
            Effect::Filter(request) => EffectV::Filter(request.deep_view()),
            Effect::LoadBranches { repo, cwd, generation } => EffectV::LoadBranches {
                repo: repo.deep_view(),
                cwd: cwd.deep_view(),
                generation: *generation,
            },
            Effect::LoadOpenWorktrees { repo_path, generation } => EffectV::LoadOpenWorktrees {
                repo_path: repo_path@,
                generation: *generation,
            },
            Effect::OpenRepo { repo_path } => EffectV::OpenRepo { repo_path: repo_path@ },
            Effect::OpenFolder { path } => EffectV::OpenFolder { path: path@ },
            Effect::OpenBranch { repo_path, branch_name, has_worktree } => EffectV::OpenBranch {
                repo_path: repo_path@,
                branch_name: branch_name@,
                has_worktree: *has_worktree,
            },
            Effect::OpenRemoteBranch { repo_path, branch_name, remote } =>
                EffectV::OpenRemoteBranch {
                repo_path: repo_path@,
                branch_name: branch_name@,
                remote: remote@,
            },
            Effect::ValidateBranchName { repo_path, branch_name } => EffectV::ValidateBranchName {
                repo_path: repo_path@,
                branch_name: branch_name@,
            },
            Effect::CreateBranch { repo_path, branch_name, base } => EffectV::CreateBranch {
                repo_path: repo_path@,
                branch_name: branch_name@,
                base: base@,
            },
            Effect::RemoveWorktree { repo_path, branch_name, worktree_path, force } =>
                EffectV::RemoveWorktree {
                repo_path: repo_path@,
                branch_name: branch_name@,
                worktree_path: worktree_path@,
                force: *force,
            },
            Effect::LoadRemotes(loading) => EffectV::LoadRemotes(loading.deep_view()),
            Effect::SavePending => EffectV::SavePending,
            Effect::SavePendingThenRemove => EffectV::SavePendingThenRemove,
        }
    }
}

/// The remote branches that are to be loaded: of which repository, for which visit, and
/// which names are taken by local branches.
#[derive(Debug, PartialEq, Eq)]
pub struct RemoteLoading {
    pub repo_path: PathBuf,
    pub generation: u64,
    pub local_names: Vec<String>,
}

#[verifier::ext_equal]
pub struct RemoteLoadingV {
    pub repo_path: Seq<u8>,
    pub generation: u64,
    pub local_names: Seq<Seq<char>>,
}

impl DeepView for RemoteLoading {
    type V = RemoteLoadingV;

    open spec fn deep_view(&self) -> RemoteLoadingV {
        RemoteLoadingV {
            repo_path: self.repo_path@,
            generation: self.generation,
            local_names: self.local_names.deep_view(),
        }
    }
}

/// What the events of one tick amount to.
#[derive(Debug, PartialEq, Eq)]
pub struct TickChanges {
    pub repos_changed: bool,
    pub branches_changed: bool,
    pub collision_pass: bool,
    pub workspace_opened: bool,
    pub open_warning: Option<String>,
    pub pinned_branch_selection: Option<BranchId>,
    pub start_remote_loading: Option<RemoteLoading>,
    pub refresh_branch: Option<Repo>,
    pub resume_pending_deletes: bool,
    /// Whether the pending removals are to be saved.
    pub save_pending: bool,
}

#[verifier::ext_equal]
pub struct TickChangesV {
    pub repos_changed: bool,
    pub branches_changed: bool,
    pub collision_pass: bool,
    pub workspace_opened: bool,
    pub open_warning: Option<Seq<char>>,
    pub pinned_branch_selection: Option<BranchIdV>,
    pub start_remote_loading: Option<RemoteLoadingV>,
    pub refresh_branch: Option<RepoV>,
    pub resume_pending_deletes: bool,
    pub save_pending: bool,
}

impl DeepView for TickChanges {
    type V = TickChangesV;

    open spec fn deep_view(&self) -> TickChangesV {
        TickChangesV {
            repos_changed: self.repos_changed,
            branches_changed: self.branches_changed,
            collision_pass: self.collision_pass,
            workspace_opened: self.workspace_opened,
            open_warning: self.open_warning.deep_view(),
            pinned_branch_selection: self.pinned_branch_selection.deep_view(),
            start_remote_loading: self.start_remote_loading.deep_view(),
            refresh_branch: self.refresh_branch.deep_view(),
            resume_pending_deletes: self.resume_pending_deletes,
            save_pending: self.save_pending,
        }
    }
}

impl Default for TickChanges {
    fn default() -> (changes: Self)
        ensures
            changes.deep_view() == (TickChangesV {
                repos_changed: false,
                branches_changed: false,
                collision_pass: false,
                workspace_opened: false,
                open_warning: None,
                pinned_branch_selection: None,
                start_remote_loading: None,
                refresh_branch: None,
                resume_pending_deletes: false,
                save_pending: false,
            }),
    {
        TickChanges {
            repos_changed: false,
            branches_changed: false,
            collision_pass: false,
            workspace_opened: false,
            open_warning: None,
            pinned_branch_selection: None,
            start_remote_loading: None,
            refresh_branch: None,
            resume_pending_deletes: false,
            save_pending: false,
        }
    }
}

} // verus!
