//! What the herdr workspace manager is told and what it answers.

use crate::branches::copy_optional_path;
use crate::config::{direction_name, OnOpenPaneDirection, Ratio};
use crate::path::{absolute, PathBuf, PathRules};
use crate::text::{concat, concat3, copy_optional_text, decode, decode_lossy, is_blank, lossy_text, owned, quote, quoted_text, same_text, trim, trimmed};
use serde::de::IgnoredAny;
use serde_json::value::RawValue;
use std::collections::HashMap;
use vstd::prelude::*;
use vstd::string::*;
use vstd::utf8::{decode_utf8, valid_utf8};

verus! {

/// The repository that a workspace shows.
#[derive(Debug, PartialEq, Eq)]
pub struct WorkspaceWorktreeInfo {
    pub repo_root: String,
    pub repo_name: String,
}

pub struct WorkspaceWorktreeInfoV {
    pub repo_root: Seq<char>,
    pub repo_name: Seq<char>,
}

impl DeepView for WorkspaceWorktreeInfo {
    type V = WorkspaceWorktreeInfoV;

    open spec fn deep_view(&self) -> WorkspaceWorktreeInfoV {
        WorkspaceWorktreeInfoV {
            repo_root: self.repo_root@,
            repo_name: self.repo_name@,
        }
    }
}

impl Clone for WorkspaceWorktreeInfo {
    fn clone(&self) -> (copy: Self)
        ensures
            copy.deep_view() == self.deep_view(),
    {
        WorkspaceWorktreeInfo {
            repo_root: self.repo_root.clone(),
            repo_name: self.repo_name.clone(),
        }
    }
}

/// A workspace as herdr lists it.
#[derive(Debug, PartialEq, Eq)]
pub struct WorkspaceInfo {
    pub workspace_id: String,
    pub label: String,
    pub focused: bool,
    pub agent_status: Option<String>,
    pub branch: Option<String>,
    pub last_focused_unix_ms: Option<u64>,
    pub worktree: Option<WorkspaceWorktreeInfo>,
}

pub struct WorkspaceInfoV {
    pub workspace_id: Seq<char>,
    pub label: Seq<char>,
    pub focused: bool,
    pub agent_status: Option<Seq<char>>,
    pub branch: Option<Seq<char>>,
    pub last_focused_unix_ms: Option<u64>,
    pub worktree: Option<WorkspaceWorktreeInfoV>,
}

impl DeepView for WorkspaceInfo {
    type V = WorkspaceInfoV;

    open spec fn deep_view(&self) -> WorkspaceInfoV {
        WorkspaceInfoV {
            workspace_id: self.workspace_id@,
            label: self.label@,
            focused: self.focused,
            agent_status: self.agent_status.deep_view(),
            branch: self.branch.deep_view(),
            last_focused_unix_ms: self.last_focused_unix_ms,
            worktree: self.worktree.deep_view(),
        }
    }
}

impl Clone for WorkspaceInfo {
    fn clone(&self) -> (copy: Self)
        ensures
            copy.deep_view() == self.deep_view(),
    {
        WorkspaceInfo {
            workspace_id: self.workspace_id.clone(),
            label: self.label.clone(),
            focused: self.focused,
            agent_status: copy_optional_text(&self.agent_status),
            branch: copy_optional_text(&self.branch),
            last_focused_unix_ms: self.last_focused_unix_ms,
            worktree: match &self.worktree {
                Some(value) => Some(value.clone()),
                None => None,
            },
        }
    }
}

/// A checkout as herdr lists it.
#[derive(Debug, PartialEq, Eq)]
pub struct WorktreeInfo {
    pub path: String,
    pub branch: Option<String>,
    pub open_workspace_id: Option<String>,
}

pub struct WorktreeInfoV {
    pub path: Seq<char>,
    pub branch: Option<Seq<char>>,
    pub open_workspace_id: Option<Seq<char>>,
}

impl DeepView for WorktreeInfo {
    type V = WorktreeInfoV;

    open spec fn deep_view(&self) -> WorktreeInfoV {
        WorktreeInfoV {
            path: self.path@,
            branch: self.branch.deep_view(),
            open_workspace_id: self.open_workspace_id.deep_view(),
        }
    }
}

impl Clone for WorktreeInfo {
    fn clone(&self) -> (copy: Self)
        ensures
            copy.deep_view() == self.deep_view(),
    {
        WorktreeInfo {
            path: self.path.clone(),
            branch: copy_optional_text(&self.branch),
            open_workspace_id: copy_optional_text(&self.open_workspace_id),
        }
    }
}

pub fn copy_worktrees(worktrees: &Vec<WorktreeInfo>) -> (copy: Vec<WorktreeInfo>)
    ensures
        copy.deep_view() == worktrees.deep_view(),
{
    let mut copy: Vec<WorktreeInfo> = Vec::new();
    let mut i: usize = 0;
    while i < worktrees.len()
        invariant
            i <= worktrees.len(),
            copy@.len() == i,
            forall|k: int| 0 <= k < i ==> copy@[k].deep_view() == worktrees@[k].deep_view(),
        decreases worktrees.len() - i,
    {
        copy.push(worktrees[i].clone());
        i = i + 1;
    }
    assert(copy.deep_view() =~= worktrees.deep_view());
    copy
}

/// The checkouts of a repository.
#[derive(Debug, PartialEq, Eq)]
pub struct WorktreeListResponse {
    pub worktrees: Vec<WorktreeInfo>,
}

pub struct WorktreeListResponseV {
    pub worktrees: Seq<WorktreeInfoV>,
}

impl DeepView for WorktreeListResponse {
    type V = WorktreeListResponseV;

    open spec fn deep_view(&self) -> WorktreeListResponseV {
        WorktreeListResponseV {
            worktrees: self.worktrees.deep_view(),
        }
    }
}

impl Clone for WorktreeListResponse {
    fn clone(&self) -> (copy: Self)
        ensures
            copy.deep_view() == self.deep_view(),
    {
        WorktreeListResponse {
            worktrees: copy_worktrees(&self.worktrees),
        }
    }
}

/// A workspace that was opened on a checkout.
#[derive(Debug, PartialEq, Eq)]
pub struct OpenedWorktree {
    pub workspace_id: String,
    pub root_pane_id: String,
    pub path: String,
}

pub struct OpenedWorktreeV {
    pub workspace_id: Seq<char>,
    pub root_pane_id: Seq<char>,
    pub path: Seq<char>,
}

impl DeepView for OpenedWorktree {
    type V = OpenedWorktreeV;

    open spec fn deep_view(&self) -> OpenedWorktreeV {
        OpenedWorktreeV {
            workspace_id: self.workspace_id@,
            root_pane_id: self.root_pane_id@,
            path: self.path@,
        }
    }
}

impl Clone for OpenedWorktree {
    fn clone(&self) -> (copy: Self)
        ensures
            copy.deep_view() == self.deep_view(),
    {
        OpenedWorktree {
            workspace_id: self.workspace_id.clone(),
            root_pane_id: self.root_pane_id.clone(),
            path: self.path.clone(),
        }
    }
}

/// The answer to a request for a new checkout.
#[derive(Debug, PartialEq, Eq)]
pub struct WorktreeCreateResponse {
    pub opened: Option<OpenedWorktree>,
    pub warning: Option<String>,
}

pub struct WorktreeCreateResponseV {
    pub opened: Option<OpenedWorktreeV>,
    pub warning: Option<Seq<char>>,
}

impl DeepView for WorktreeCreateResponse {
    type V = WorktreeCreateResponseV;

    open spec fn deep_view(&self) -> WorktreeCreateResponseV {
        WorktreeCreateResponseV {
            opened: self.opened.deep_view(),
            warning: self.warning.deep_view(),
        }
    }
}

impl Clone for WorktreeCreateResponse {
    fn clone(&self) -> (copy: Self)
        ensures
            copy.deep_view() == self.deep_view(),
    {
        WorktreeCreateResponse {
            opened: match &self.opened {
                Some(value) => Some(value.clone()),
                None => None,
            },
            warning: copy_optional_text(&self.warning),
        }
    }
}

/// The answer to a request to open a checkout.
#[derive(Debug, PartialEq, Eq)]
pub struct WorktreeOpenResponse {
    pub opened: Option<OpenedWorktree>,
    pub already_open: Option<bool>,
    pub warning: Option<String>,
}

pub struct WorktreeOpenResponseV {
    pub opened: Option<OpenedWorktreeV>,
    pub already_open: Option<bool>,
    pub warning: Option<Seq<char>>,
}

impl DeepView for WorktreeOpenResponse {
    type V = WorktreeOpenResponseV;

    open spec fn deep_view(&self) -> WorktreeOpenResponseV {
        WorktreeOpenResponseV {
            opened: self.opened.deep_view(),
            already_open: self.already_open,
            warning: self.warning.deep_view(),
        }
    }
}

impl Clone for WorktreeOpenResponse {
    fn clone(&self) -> (copy: Self)
        ensures
            copy.deep_view() == self.deep_view(),
    {
        WorktreeOpenResponse {
            opened: match &self.opened {
                Some(value) => Some(value.clone()),
                None => None,
            },
            already_open: self.already_open,
            warning: copy_optional_text(&self.warning),
        }
    }
}

/// A pane as herdr lists it.
#[derive(Debug, PartialEq, Eq)]
pub struct PaneInfo {
    pub workspace_id: String,
    pub cwd: Option<String>,
    pub foreground_cwd: Option<String>,
}

pub struct PaneInfoV {
    pub workspace_id: Seq<char>,
    pub cwd: Option<Seq<char>>,
    pub foreground_cwd: Option<Seq<char>>,
}

impl DeepView for PaneInfo {
    type V = PaneInfoV;

    open spec fn deep_view(&self) -> PaneInfoV {
        PaneInfoV {
            workspace_id: self.workspace_id@,
            cwd: self.cwd.deep_view(),
            foreground_cwd: self.foreground_cwd.deep_view(),
        }
    }
}

impl Clone for PaneInfo {
    fn clone(&self) -> (copy: Self)
        ensures
            copy.deep_view() == self.deep_view(),
    {
        PaneInfo {
            workspace_id: self.workspace_id.clone(),
            cwd: copy_optional_text(&self.cwd),
            foreground_cwd: copy_optional_text(&self.foreground_cwd),
        }
    }
}

/// The answer to a request for a new workspace.
#[derive(Debug, PartialEq, Eq)]
pub struct WorkspaceCreateResponse {
    pub workspace_id: Option<String>,
    pub warning: Option<String>,
}

pub struct WorkspaceCreateResponseV {
    pub workspace_id: Option<Seq<char>>,
    pub warning: Option<Seq<char>>,
}

impl DeepView for WorkspaceCreateResponse {
    type V = WorkspaceCreateResponseV;

    open spec fn deep_view(&self) -> WorkspaceCreateResponseV {
        WorkspaceCreateResponseV {
            workspace_id: self.workspace_id.deep_view(),
            warning: self.warning.deep_view(),
        }
    }
}

impl Clone for WorkspaceCreateResponse {
    fn clone(&self) -> (copy: Self)
        ensures
            copy.deep_view() == self.deep_view(),
    {
        WorkspaceCreateResponse {
            workspace_id: copy_optional_text(&self.workspace_id),
            warning: copy_optional_text(&self.warning),
        }
    }
}

/// A request to split a pane.
#[derive(Debug, PartialEq, Eq)]
pub struct PaneSplitRequest {
    pub pane_id: String,
    pub direction: OnOpenPaneDirection,
    pub ratio: Option<Ratio>,
    pub cwd: PathBuf,
    pub focus: bool,
}

pub struct PaneSplitRequestV {
    pub pane_id: Seq<char>,
    pub direction: OnOpenPaneDirection,
    pub ratio: Option<Ratio>,
    pub cwd: Seq<u8>,
    pub focus: bool,
}

impl DeepView for PaneSplitRequest {
    type V = PaneSplitRequestV;

    open spec fn deep_view(&self) -> PaneSplitRequestV {
        PaneSplitRequestV {
            pane_id: self.pane_id@,
            direction: self.direction,
            ratio: self.ratio,
            cwd: self.cwd@,
            focus: self.focus,
        }
    }
}

impl Clone for PaneSplitRequest {
    fn clone(&self) -> (copy: Self)
        ensures
            copy.deep_view() == self.deep_view(),
    {
        PaneSplitRequest {
            pane_id: self.pane_id.clone(),
            direction: self.direction,
            ratio: self.ratio,
            cwd: self.cwd.clone(),
            focus: self.focus,
        }
    }
}

/// The pane that a split made.
#[derive(Debug, PartialEq, Eq)]
pub struct PaneSplitResponse {
    pub pane_id: String,
}

pub struct PaneSplitResponseV {
    pub pane_id: Seq<char>,
}

impl DeepView for PaneSplitResponse {
    type V = PaneSplitResponseV;

    open spec fn deep_view(&self) -> PaneSplitResponseV {
        PaneSplitResponseV {
            pane_id: self.pane_id@,
        }
    }
}

impl Clone for PaneSplitResponse {
    fn clone(&self) -> (copy: Self)
        ensures
            copy.deep_view() == self.deep_view(),
    {
        PaneSplitResponse {
            pane_id: self.pane_id.clone(),
        }
    }
}

/// A request for a new tab.
#[derive(Debug, PartialEq, Eq)]
pub struct TabCreateRequest {
    pub workspace_id: String,
    pub cwd: PathBuf,
    pub label: Option<String>,
}

pub struct TabCreateRequestV {
    pub workspace_id: Seq<char>,
    pub cwd: Seq<u8>,
    pub label: Option<Seq<char>>,
}

impl DeepView for TabCreateRequest {
    type V = TabCreateRequestV;

    open spec fn deep_view(&self) -> TabCreateRequestV {
        TabCreateRequestV {
            workspace_id: self.workspace_id@,
            cwd: self.cwd@,
            label: self.label.deep_view(),
        }
    }
}

impl Clone for TabCreateRequest {
    fn clone(&self) -> (copy: Self)
        ensures
            copy.deep_view() == self.deep_view(),
    {
        TabCreateRequest {
            workspace_id: self.workspace_id.clone(),
            cwd: self.cwd.clone(),
            label: copy_optional_text(&self.label),
        }
    }
}

/// The pane of a new tab.
#[derive(Debug, PartialEq, Eq)]
pub struct TabCreateResponse {
    pub root_pane_id: String,
}

pub struct TabCreateResponseV {
    pub root_pane_id: Seq<char>,
}

impl DeepView for TabCreateResponse {
    type V = TabCreateResponseV;

    open spec fn deep_view(&self) -> TabCreateResponseV {
        TabCreateResponseV {
            root_pane_id: self.root_pane_id@,
        }
    }
}

impl Clone for TabCreateResponse {
    fn clone(&self) -> (copy: Self)
        ensures
            copy.deep_view() == self.deep_view(),
    {
        TabCreateResponse {
            root_pane_id: self.root_pane_id.clone(),
        }
    }
}

/// The answer to a request to remove a checkout.
#[derive(Debug, PartialEq, Eq)]
pub struct WorktreeRemoveResponse {
    pub warning: Option<String>,
}

pub struct WorktreeRemoveResponseV {
    pub warning: Option<Seq<char>>,
}

impl DeepView for WorktreeRemoveResponse {
    type V = WorktreeRemoveResponseV;

    open spec fn deep_view(&self) -> WorktreeRemoveResponseV {
        WorktreeRemoveResponseV {
            warning: self.warning.deep_view(),
        }
    }
}

impl Clone for WorktreeRemoveResponse {
    fn clone(&self) -> (copy: Self)
        ensures
            copy.deep_view() == self.deep_view(),
    {
        WorktreeRemoveResponse {
            warning: copy_optional_text(&self.warning),
        }
    }
}

/// A request for a new checkout.
#[derive(Debug, PartialEq, Eq)]
pub struct WorktreeCreateRequest {
    pub cwd: PathBuf,
    pub branch: String,
    pub base: Option<String>,
    pub path: Option<PathBuf>,
    pub focus: bool,
}

pub struct WorktreeCreateRequestV {
    pub cwd: Seq<u8>,
    pub branch: Seq<char>,
    pub base: Option<Seq<char>>,
    pub path: Option<Seq<u8>>,
    pub focus: bool,
}

impl DeepView for WorktreeCreateRequest {
    type V = WorktreeCreateRequestV;

    open spec fn deep_view(&self) -> WorktreeCreateRequestV {
        WorktreeCreateRequestV {
            cwd: self.cwd@,
            branch: self.branch@,
            base: self.base.deep_view(),
            path: self.path.deep_view(),
            focus: self.focus,
        }
    }
}

impl Clone for WorktreeCreateRequest {
    fn clone(&self) -> (copy: Self)
        ensures
            copy.deep_view() == self.deep_view(),
    {
        WorktreeCreateRequest {
            cwd: self.cwd.clone(),
            branch: self.branch.clone(),
            base: copy_optional_text(&self.base),
            path: copy_optional_path(&self.path),
            focus: self.focus,
        }
    }
}

/// A command was handed to a pane.
#[derive(Debug, Clone, Copy, PartialEq, Eq, Structural)]
pub struct PaneRunResponse;

/// Which checkout to open: the one at a path, or the one of a branch.
#[derive(Debug, PartialEq, Eq)]
pub enum WorktreeOpenTarget {
    Path(PathBuf),
    Branch(String),
}

pub enum WorktreeOpenTargetV {
    Path(Seq<u8>),
    Branch(Seq<char>),
}

impl DeepView for WorktreeOpenTarget {
    type V = WorktreeOpenTargetV;

    open spec fn deep_view(&self) -> WorktreeOpenTargetV {
        match self {
            WorktreeOpenTarget::Path(path) => WorktreeOpenTargetV::Path(path@),
            WorktreeOpenTarget::Branch(branch) => WorktreeOpenTargetV::Branch(branch@),
        }
    }
}

/// Why herdr did not do what it was asked to.
#[derive(Debug, PartialEq, Eq)]
pub enum HerdrError {
    UiBusy(String),
    PluginPaneOpenFailed(String),
    WorktreeOperationInProgress(String),
    StaleWorktreeOperation(String),
    LinkedWorktreeSource(String),
    NotGitWorktree(String),
    DirtyWorktreeRequiresForce(String),
    WorktreeCreateFailed(String),
    WorktreeOpenFailed(String),
    WorktreeNotFound(String),
    Other { code: String, message: String },
    InvalidArgument(String),
    Invocation(String),
    InvalidResponse(String),
}

pub enum HerdrErrorV {
    UiBusy(Seq<char>),
    PluginPaneOpenFailed(Seq<char>),
    WorktreeOperationInProgress(Seq<char>),
    StaleWorktreeOperation(Seq<char>),
    LinkedWorktreeSource(Seq<char>),
    NotGitWorktree(Seq<char>),
    DirtyWorktreeRequiresForce(Seq<char>),
    WorktreeCreateFailed(Seq<char>),
    WorktreeOpenFailed(Seq<char>),
    WorktreeNotFound(Seq<char>),
    Other { code: Seq<char>, message: Seq<char> },
    InvalidArgument(Seq<char>),
    Invocation(Seq<char>),
    InvalidResponse(Seq<char>),
}

impl DeepView for HerdrError {
    type V = HerdrErrorV;

    open spec fn deep_view(&self) -> HerdrErrorV {
        match self {
            HerdrError::UiBusy(message) => HerdrErrorV::UiBusy(message@),
            HerdrError::PluginPaneOpenFailed(message) => HerdrErrorV::PluginPaneOpenFailed(message@),
            HerdrError::WorktreeOperationInProgress(message) => HerdrErrorV::WorktreeOperationInProgress(message@),
            HerdrError::StaleWorktreeOperation(message) => HerdrErrorV::StaleWorktreeOperation(message@),
            HerdrError::LinkedWorktreeSource(message) => HerdrErrorV::LinkedWorktreeSource(message@),
            HerdrError::NotGitWorktree(message) => HerdrErrorV::NotGitWorktree(message@),
            HerdrError::DirtyWorktreeRequiresForce(message) => HerdrErrorV::DirtyWorktreeRequiresForce(message@),
            HerdrError::WorktreeCreateFailed(message) => HerdrErrorV::WorktreeCreateFailed(message@),
            HerdrError::WorktreeOpenFailed(message) => HerdrErrorV::WorktreeOpenFailed(message@),
            HerdrError::WorktreeNotFound(message) => HerdrErrorV::WorktreeNotFound(message@),
            HerdrError::InvalidArgument(message) => HerdrErrorV::InvalidArgument(message@),
            HerdrError::Invocation(message) => HerdrErrorV::Invocation(message@),
            HerdrError::InvalidResponse(message) => HerdrErrorV::InvalidResponse(message@),
            HerdrError::Other { code, message } => HerdrErrorV::Other { code: code@, message: message@ },
        }
    }
}

impl HerdrErrorV {
    /// The error for people to read.
    pub open spec fn text(self) -> Seq<char> {
        match self {
            HerdrErrorV::UiBusy(message) => "ui_busy: "@ + message,
            HerdrErrorV::PluginPaneOpenFailed(message) => "plugin_pane_open_failed: "@ + message,
            HerdrErrorV::WorktreeOperationInProgress(message) => "worktree_operation_in_progress: "@ + message,
            HerdrErrorV::StaleWorktreeOperation(message) => "stale_worktree_operation: "@ + message,
            HerdrErrorV::LinkedWorktreeSource(message) => "linked_worktree_source: "@ + message,
            HerdrErrorV::NotGitWorktree(message) => "not_git_worktree: "@ + message,
            HerdrErrorV::DirtyWorktreeRequiresForce(message) => "dirty_worktree_requires_force: "@ + message,
            HerdrErrorV::WorktreeCreateFailed(message) => "worktree_create_failed: "@ + message,
            HerdrErrorV::WorktreeOpenFailed(message) => "worktree_open_failed: "@ + message,
            HerdrErrorV::WorktreeNotFound(message) => "worktree_not_found: "@ + message,
            HerdrErrorV::InvalidArgument(message) => "invalid argument: "@ + message,
            HerdrErrorV::Invocation(message) => "herdr invocation failed: "@ + message,
            HerdrErrorV::InvalidResponse(message) => "invalid herdr response: "@ + message,
            HerdrErrorV::Other { code, message } => code + ": "@ + message,
        }
    }

    /// The error that an error code and a message stand for.
    pub open spec fn from_code(code: Seq<char>, message: Seq<char>) -> HerdrErrorV {
        if code == "ui_busy"@ {
            HerdrErrorV::UiBusy(message)
        } else if code == "plugin_pane_open_failed"@ {
            HerdrErrorV::PluginPaneOpenFailed(message)
        } else if code == "worktree_operation_in_progress"@ {
            HerdrErrorV::WorktreeOperationInProgress(message)
        } else if code == "stale_worktree_operation"@ {
            HerdrErrorV::StaleWorktreeOperation(message)
        } else if code == "linked_worktree_source"@ {
            HerdrErrorV::LinkedWorktreeSource(message)
        } else if code == "not_git_worktree"@ {
            HerdrErrorV::NotGitWorktree(message)
        } else if code == "dirty_worktree_requires_force"@ {
            HerdrErrorV::DirtyWorktreeRequiresForce(message)
        } else if code == "worktree_create_failed"@ {
            HerdrErrorV::WorktreeCreateFailed(message)
        } else if code == "worktree_open_failed"@ {
            HerdrErrorV::WorktreeOpenFailed(message)
        } else if code == "worktree_not_found"@ {
            HerdrErrorV::WorktreeNotFound(message)
        } else {
            HerdrErrorV::Other { code, message }
        }
    }
}

impl HerdrError {
    /// The error for people to read.
    pub fn to_text(&self) -> (text: String)
        ensures
            text@ == self.deep_view().text(),
    {
        match self {
            HerdrError::UiBusy(message) => concat("ui_busy: ", message.as_str()),
            HerdrError::PluginPaneOpenFailed(message) => concat("plugin_pane_open_failed: ", message.as_str()),
            HerdrError::WorktreeOperationInProgress(message) => concat("worktree_operation_in_progress: ", message.as_str()),
            HerdrError::StaleWorktreeOperation(message) => concat("stale_worktree_operation: ", message.as_str()),
            HerdrError::LinkedWorktreeSource(message) => concat("linked_worktree_source: ", message.as_str()),
            HerdrError::NotGitWorktree(message) => concat("not_git_worktree: ", message.as_str()),
            HerdrError::DirtyWorktreeRequiresForce(message) => concat("dirty_worktree_requires_force: ", message.as_str()),
            HerdrError::WorktreeCreateFailed(message) => concat("worktree_create_failed: ", message.as_str()),
            HerdrError::WorktreeOpenFailed(message) => concat("worktree_open_failed: ", message.as_str()),
            HerdrError::WorktreeNotFound(message) => concat("worktree_not_found: ", message.as_str()),
            HerdrError::InvalidArgument(message) => concat("invalid argument: ", message.as_str()),
            HerdrError::Invocation(message) => concat("herdr invocation failed: ", message.as_str()),
            HerdrError::InvalidResponse(message) => concat("invalid herdr response: ", message.as_str()),
            HerdrError::Other { code, message } => concat3(code.as_str(), ": ", message.as_str()),
        }
    }

    /// The error that an error code and a message stand for.
    pub fn from_code(code: String, message: String) -> (error: HerdrError)
        ensures
            error.deep_view() == HerdrErrorV::from_code(code@, message@),
    {
        let text = code.as_str();
        if same_text(text, "ui_busy") {
            HerdrError::UiBusy(message)
        } else if same_text(text, "plugin_pane_open_failed") {
            HerdrError::PluginPaneOpenFailed(message)
        } else if same_text(text, "worktree_operation_in_progress") {
            HerdrError::WorktreeOperationInProgress(message)
        } else if same_text(text, "stale_worktree_operation") {
            HerdrError::StaleWorktreeOperation(message)
        } else if same_text(text, "linked_worktree_source") {
            HerdrError::LinkedWorktreeSource(message)
        } else if same_text(text, "not_git_worktree") {
            HerdrError::NotGitWorktree(message)
        } else if same_text(text, "dirty_worktree_requires_force") {
            HerdrError::DirtyWorktreeRequiresForce(message)
        } else if same_text(text, "worktree_create_failed") {
            HerdrError::WorktreeCreateFailed(message)
        } else if same_text(text, "worktree_open_failed") {
            HerdrError::WorktreeOpenFailed(message)
        } else if same_text(text, "worktree_not_found") {
            HerdrError::WorktreeNotFound(message)
        } else {
            HerdrError::Other { code, message }
        }
    }
}

/// The names of the members of the object that a document holds, in their order, one as
/// often as it is written; nothing where the document holds no object.
pub uninterp spec fn json_names(document: Seq<u8>) -> Option<Seq<Seq<char>>>;

/// `serde_ignored::deserialize` on the `serde_json::Deserializer` of a document, into a map
/// whose values are all ignored and so reported by their names, and `Deserializer::end`
/// behind it. The names depend on the document alone.
#[verifier::external_body]
pub(crate) fn member_names(document: &[u8]) -> (names: Option<Vec<String>>)
    ensures
        names.deep_view() == json_names(document@),
{
    let mut names: Vec<String> = Vec::new();
    let mut reader = serde_json::Deserializer::from_slice(document);
    let read: Result<HashMap<String, IgnoredAny>, serde_json::Error> =
        serde_ignored::deserialize(&mut reader, |path| names.push(path.to_string()));
    match read.and_then(|_| reader.end()) {
        Ok(()) => Some(names),
        Err(_) => None,
    }
}

/// The JSON text of a member of the object that a document holds.
pub uninterp spec fn json_member(document: Seq<u8>, name: Seq<char>) -> Option<Seq<u8>>;

/// `serde_json::from_slice` into a map of raw values, and the one under a name. The text
/// depends on the document and the name alone. There is none where any member holds bytes
/// that are no UTF-8.
#[verifier::external_body]
pub(crate) fn member_text(document: &[u8], name: &str) -> (text: Option<Vec<u8>>)
    ensures
        text.deep_view() == json_member(document@, name@),
{
    let members = serde_json::from_slice::<HashMap<String, Box<RawValue>>>(document);
    members.ok()?.get(name).map(|value| value.get().as_bytes().to_vec())
}

/// The JSON texts of the elements of the array that a document holds.
pub uninterp spec fn json_elements(document: Seq<u8>) -> Option<Seq<Seq<u8>>>;

/// `serde_json::from_slice` into a list of raw values. The texts depend on the document
/// alone.
#[verifier::external_body]
pub(crate) fn element_texts(document: &[u8]) -> (texts: Option<Vec<Vec<u8>>>)
    ensures
        texts.deep_view() == json_elements(document@),
{
    let elements = serde_json::from_slice::<Vec<Box<RawValue>>>(document).ok()?;
    Some(elements.iter().map(|value| value.get().as_bytes().to_vec()).collect())
}

/// The text that a document holds, or that it holds `null`; nothing where it holds
/// something else.
pub uninterp spec fn json_text(document: Seq<u8>) -> Option<Option<Seq<char>>>;

/// `serde_json::from_slice` into a text that may be left out. The text depends on the
/// document alone.
#[verifier::external_body]
pub(crate) fn optional_text(document: &[u8]) -> (text: Option<Option<String>>)
    ensures
        text.deep_view() == json_text(document@),
{
    serde_json::from_slice::<Option<String>>(document).ok()
}

/// A member of a record, as its JSON text.
#[derive(Debug, PartialEq, Eq)]
pub enum JsonMember {
    /// The record does not have it.
    Missing,
    /// The record cannot be read, or has it twice.
    Refused,
    Written(Vec<u8>),
}

#[verifier::ext_equal]
pub enum JsonMemberV {
    Missing,
    Refused,
    Written(Seq<u8>),
}

impl DeepView for JsonMember {
    type V = JsonMemberV;

    open spec fn deep_view(&self) -> JsonMemberV {
        match self {
            JsonMember::Missing => JsonMemberV::Missing,
            JsonMember::Refused => JsonMemberV::Refused,
            JsonMember::Written(text) => JsonMemberV::Written(text@),
        }
    }
}

/// A member of a record where a text is wanted.
#[derive(Debug, PartialEq, Eq)]
pub enum JsonField {
    /// The record does not have it.
    Missing,
    /// The record cannot be read, has it twice, or holds something else there.
    Refused,
    Null,
    Text(String),
}

#[verifier::ext_equal]
pub enum JsonFieldV {
    Missing,
    Refused,
    Null,
    Text(Seq<char>),
}

impl DeepView for JsonField {
    type V = JsonFieldV;

    open spec fn deep_view(&self) -> JsonFieldV {
        match self {
            JsonField::Missing => JsonFieldV::Missing,
            JsonField::Refused => JsonFieldV::Refused,
            JsonField::Null => JsonFieldV::Null,
            JsonField::Text(text) => JsonFieldV::Text(text@),
        }
    }
}

/// How often a name is written.
pub open spec fn times(names: Seq<Seq<char>>, name: Seq<char>) -> nat
    decreases names.len(),
{
    if names.len() == 0 {
        0
    } else {
        times(names.drop_last(), name) + (if names.last() == name {
            1nat
        } else {
            0nat
        })
    }
}

/// How often a name is written.
pub fn count_times(names: &Vec<String>, name: &str) -> (count: usize)
    ensures
        count == times(names.deep_view(), name@),
        count <= names@.len(),
{
    let ghost all = names.deep_view();
    let mut count: usize = 0;
    let mut i: usize = 0;
    while i < names.len()
        invariant
            i <= names.len(),
            count <= i,
            all == names.deep_view(),
            count == times(all.take(i as int), name@),
        decreases names.len() - i,
    {
        proof {
            assert(all.take(i + 1).drop_last() =~= all.take(i as int));
            assert(all.take(i + 1).last() == names@[i as int]@);
        }
        if same_text(names[i].as_str(), name) {
            count = count + 1;
        }
        i = i + 1;
    }
    assert(all.take(all.len() as int) =~= all);
    count
}

/// A member of a record. A record is written as an object, which names its members, each at
/// most once, among others that are ignored; or as an array that holds its `count` members in
/// order and nothing else.
pub open spec fn record_member(
    names: Option<Seq<Seq<char>>>,
    member: Option<Seq<u8>>,
    elements: Option<Seq<Seq<u8>>>,
    name: Seq<char>,
    position: int,
    count: int,
) -> JsonMemberV {
    match (names, elements) {
        (Some(names), _) => if times(names, name) == 0 {
            JsonMemberV::Missing
        } else if times(names, name) == 1 && member is Some {
            JsonMemberV::Written(member->0)
        } else {
            JsonMemberV::Refused
        },
        (None, Some(elements)) => if elements.len() == count {
            JsonMemberV::Written(elements[position])
        } else {
            JsonMemberV::Refused
        },
        (None, None) => JsonMemberV::Refused,
    }
}

/// A member of a record, given what the record holds.
pub fn find_member(
    names: Option<Vec<String>>,
    member: Option<Vec<u8>>,
    elements: Option<Vec<Vec<u8>>>,
    name: &str,
    position: usize,
    count: usize,
) -> (found: JsonMember)
    requires
        position < count,
    ensures
        found.deep_view() == record_member(
            names.deep_view(),
            member.deep_view(),
            elements.deep_view(),
            name@,
            position as int,
            count as int,
        ),
{
    match names {
        Some(names) => {
            let written: usize = count_times(&names, name);
            if written == 0 {
                JsonMember::Missing
            } else {
                match member {
                    Some(text) if written == 1 => {
                        assert(text.deep_view() =~= text@);
                        JsonMember::Written(text)
                    },
                    _ => JsonMember::Refused,
                }
            }
        },
        None => match elements {
            Some(mut elements) => if elements.len() == count {
                assert(elements.deep_view()[position as int] =~= elements@[position as int]@);
                JsonMember::Written(elements.swap_remove(position))
            } else {
                JsonMember::Refused
            },
            None => JsonMember::Refused,
        },
    }
}

/// A member of the record that a document holds.
pub open spec fn member_in(
    document: Seq<u8>,
    name: Seq<char>,
    position: int,
    count: int,
) -> JsonMemberV {
    record_member(
        json_names(document),
        json_member(document, name),
        json_elements(document),
        name,
        position,
        count,
    )
}

fn read_member(document: &[u8], name: &str, position: usize, count: usize) -> (member: JsonMember)
    requires
        position < count,
    ensures
        member.deep_view() == member_in(document@, name@, position as int, count as int),
{
    find_member(
        member_names(document),
        member_text(document, name),
        element_texts(document),
        name,
        position,
        count,
    )
}

/// What is read of a member where a text is wanted.
pub open spec fn field_of_text(text: Option<Option<Seq<char>>>) -> JsonFieldV {
    match text {
        Some(Some(text)) => JsonFieldV::Text(text),
        Some(None) => JsonFieldV::Null,
        None => JsonFieldV::Refused,
    }
}

/// A member of the record that a document holds, where a text is wanted.
pub open spec fn text_in(
    document: Seq<u8>,
    name: Seq<char>,
    position: int,
    count: int,
) -> JsonFieldV {
    match member_in(document, name, position, count) {
        JsonMemberV::Missing => JsonFieldV::Missing,
        JsonMemberV::Refused => JsonFieldV::Refused,
        JsonMemberV::Written(text) => field_of_text(json_text(text)),
    }
}

/// A member of the record that a document holds, where a text is wanted.
pub fn read_text(document: &[u8], name: &str, position: usize, count: usize) -> (field: JsonField)
    requires
        position < count,
    ensures
        field.deep_view() == text_in(document@, name@, position as int, count as int),
{
    match read_member(document, name, position, count) {
        JsonMember::Missing => JsonField::Missing,
        JsonMember::Refused => JsonField::Refused,
        JsonMember::Written(text) => match optional_text(text.as_slice()) {
            Some(Some(text)) => JsonField::Text(text),
            Some(None) => JsonField::Null,
            None => JsonField::Refused,
        },
    }
}

/// The error that the two fields of an error envelope stand for, where both are texts.
pub open spec fn envelope_error(code: JsonFieldV, message: JsonFieldV) -> Option<HerdrErrorV> {
    match (code, message) {
        (JsonFieldV::Text(code), JsonFieldV::Text(message)) => Some(
            HerdrErrorV::from_code(code, message),
        ),
        _ => None,
    }
}

/// Reads the fields of an error envelope.
pub fn error_of_fields(code: JsonField, message: JsonField) -> (error: Option<HerdrError>)
    ensures
        error.deep_view() == envelope_error(code.deep_view(), message.deep_view()),
{
    match (code, message) {
        (JsonField::Text(code), JsonField::Text(message)) => Some(
            HerdrError::from_code(code, message),
        ),
        _ => None,
    }
}

/// The error that an output of herdr reports: a record of one member, which is a record of a
/// code and a message.
pub open spec fn envelope_in(document: Seq<u8>) -> Option<HerdrErrorV> {
    match member_in(document, "error"@, 0, 1) {
        JsonMemberV::Written(body) => envelope_error(
            text_in(body, "code"@, 0, 2),
            text_in(body, "message"@, 1, 2),
        ),
        _ => None,
    }
}

/// The error that an output of herdr reports, if it is an error envelope.
pub fn parse_error_envelope(bytes: &[u8]) -> (error: Option<HerdrError>)
    ensures
        error.deep_view() == envelope_in(bytes@),
{
    match read_member(bytes, "error", 0, 1) {
        JsonMember::Written(body) => {
            let code = read_text(body.as_slice(), "code", 0, 2);
            let message = read_text(body.as_slice(), "message", 1, 2);
            error_of_fields(code, message)
        },
        _ => None,
    }
}

/// What a run of herdr that printed no error envelope gives.
pub open spec fn plain_output(
    binary: Seq<u8>,
    success: bool,
    status: Seq<char>,
    stdout: Seq<u8>,
    stderr: Seq<u8>,
) -> Result<Seq<u8>, HerdrErrorV> {
    if success {
        Ok(stdout)
    } else {
        Err(
            HerdrErrorV::Invocation(
                lossy_text(binary) + " exited with "@ + status + ": "@ + trimmed(
                    lossy_text(stderr),
                ),
            ),
        )
    }
}

/// What a run of herdr gives: an error envelope counts first, whatever the exit status.
pub open spec fn run_output(
    binary: Seq<u8>,
    success: bool,
    status: Seq<char>,
    stdout: Seq<u8>,
    stderr: Seq<u8>,
) -> Result<Seq<u8>, HerdrErrorV> {
    match (envelope_in(stderr), envelope_in(stdout)) {
        (Some(error), _) => Err(error),
        (None, Some(error)) => Err(error),
        (None, None) => plain_output(binary, success, status, stdout, stderr),
    }
}

/// The outcome of a call, with its error taken by its contents.
pub open spec fn reply<T: DeepView>(result: Result<T, HerdrError>) -> Result<T::V, HerdrErrorV> {
    match result {
        Ok(value) => Ok(value.deep_view()),
        Err(error) => Err(error.deep_view()),
    }
}

/// What is wrong with a path that has to be absolute.
pub open spec fn absolute_problem(name: Seq<char>, path: Seq<u8>) -> HerdrErrorV {
    HerdrErrorV::InvalidArgument(name + " must be absolute: "@ + lossy_text(path))
}

pub open spec fn empty_problem(name: Seq<char>) -> HerdrErrorV {
    HerdrErrorV::InvalidArgument(name + " must not be empty"@)
}

pub open spec fn text_problem(name: Seq<char>) -> HerdrErrorV {
    HerdrErrorV::InvalidArgument(name + " is not valid UTF-8 and cannot be passed to herdr"@)
}

/// A path as an argument: it has to be absolute and a text.
pub open spec fn path_argument(name: Seq<char>, path: Seq<u8>, rules: PathRules) -> Result<Seq<char>, HerdrErrorV> {
    if !absolute(path, rules) {
        Err(absolute_problem(name, path))
    } else if !valid_utf8(path) {
        Err(text_problem(name))
    } else {
        Ok(decode_utf8(path))
    }
}

fn require_absolute(name: &str, path: &PathBuf, rules: PathRules) -> (result: Result<(), HerdrError>)
    ensures
        reply(result) == if absolute(path@, rules) {
            Ok::<(), HerdrErrorV>(())
        } else {
            Err(absolute_problem(name@, path@))
        },
{
    if path.is_absolute(rules) {
        Ok(())
    } else {
        let shown = decode_lossy(path.bytes.as_slice());
        Err(HerdrError::InvalidArgument(concat3(name, " must be absolute: ", shown.as_str())))
    }
}

fn require_nonempty(name: &str, value: &str) -> (result: Result<(), HerdrError>)
    ensures
        reply(result) == if trimmed(value@).len() > 0 {
            Ok::<(), HerdrErrorV>(())
        } else {
            Err(empty_problem(name@))
        },
{
    if is_blank(value) {
        Err(HerdrError::InvalidArgument(concat(name, " must not be empty")))
    } else {
        Ok(())
    }
}

fn path_arg(name: &str, path: &PathBuf, rules: PathRules) -> (result: Result<String, HerdrError>)
    ensures
        reply(result) == path_argument(name@, path@, rules),
{
    match require_absolute(name, path, rules) {
        Ok(_) => {},
        Err(error) => {
            return Err(error);
        },
    }
    match decode(path.bytes.as_slice()) {
        Some(text) => Ok(text),
        None => Err(
            HerdrError::InvalidArgument(
                concat(name, " is not valid UTF-8 and cannot be passed to herdr"),
            ),
        ),
    }
}

pub open spec fn focus_flag(focus: bool) -> Seq<char> {
    if focus {
        "--focus"@
    } else {
        "--no-focus"@
    }
}

fn add(args: &mut Vec<String>, text: &str)
    ensures
        final(args).deep_view() == old(args).deep_view().push(text@),
{
    let ghost before = args.deep_view();
    args.push(owned(text));
    assert(args.deep_view() =~= before.push(text@));
}

fn add_focus(args: &mut Vec<String>, focus: bool)
    ensures
        final(args).deep_view() == old(args).deep_view().push(focus_flag(focus)),
{
    if focus {
        self::add(args, "--focus")
    } else {
        self::add(args, "--no-focus")
    }
}

fn no_args() -> (args: Vec<String>)
    ensures
        args.deep_view() == Seq::<Seq<char>>::empty(),
{
    let args: Vec<String> = Vec::new();
    assert(args.deep_view() =~= Seq::empty());
    args
}

/// The arguments that open a checkout.
pub open spec fn worktree_open_line(
    cwd: Seq<u8>,
    target: WorktreeOpenTargetV,
    focus: bool,
    rules: PathRules,
) -> Result<Seq<Seq<char>>, HerdrErrorV> {
    match path_argument("cwd"@, cwd, rules) {
        Err(error) => Err(error),
        Ok(dir) => match target {
            WorktreeOpenTargetV::Path(path) => match path_argument("worktree path"@, path, rules) {
                Err(error) => Err(error),
                Ok(place) => Ok(
                    seq![
                        "worktree"@,
                        "open"@,
                        "--cwd"@,
                        dir,
                        "--path"@,
                        place,
                        focus_flag(focus),
                    ],
                ),
            },
            WorktreeOpenTargetV::Branch(branch) => if trimmed(branch).len() == 0 {
                Err(empty_problem("branch"@))
            } else {
                Ok(
                    seq![
                        "worktree"@,
                        "open"@,
                        "--cwd"@,
                        dir,
                        "--branch"@,
                        branch,
                        focus_flag(focus),
                    ],
                )
            },
        },
    }
}

/// What an optional flag with a value adds to the arguments.
pub open spec fn flag_with(flag: Seq<char>, value: Option<Seq<char>>) -> Seq<Seq<char>> {
    match value {
        Some(text) => seq![flag, text],
        None => Seq::empty(),
    }
}

/// The arguments that make a checkout.
pub open spec fn worktree_create_line(request: WorktreeCreateRequestV, rules: PathRules) -> Result<
    Seq<Seq<char>>,
    HerdrErrorV,
> {
    if !absolute(request.cwd, rules) {
        Err(absolute_problem("cwd"@, request.cwd))
    } else if trimmed(request.branch).len() == 0 {
        Err(empty_problem("branch"@))
    } else if !valid_utf8(request.cwd) {
        Err(text_problem("cwd"@))
    } else if request.base is Some && trimmed(request.base->0).len() == 0 {
        Err(empty_problem("base"@))
    } else if request.path is Some && path_argument("worktree path"@, request.path->0, rules) is Err {
        Err(path_argument("worktree path"@, request.path->0, rules)->Err_0)
    } else {
        Ok(
            seq![
                "worktree"@,
                "create"@,
                "--cwd"@,
                decode_utf8(request.cwd),
                "--branch"@,
                request.branch,
            ] + flag_with("--base"@, request.base) + flag_with(
                "--path"@,
                match request.path {
                    Some(path) => Some(decode_utf8(path)),
                    None => None,
                },
            ) + seq![focus_flag(request.focus)],
        )
    }
}

/// The arguments that split a pane; `ratio` is the spelling of the request's ratio.
pub open spec fn pane_split_line(request: PaneSplitRequestV, ratio: Option<Seq<char>>, rules: PathRules) -> Result<
    Seq<Seq<char>>,
    HerdrErrorV,
> {
    if trimmed(request.pane_id).len() == 0 {
        Err(empty_problem("pane id"@))
    } else if !absolute(request.cwd, rules) {
        Err(absolute_problem("cwd"@, request.cwd))
    } else if request.ratio is Some && !request.ratio->0.between_zero_and_one() {
        Err(
            HerdrErrorV::InvalidArgument(
                "pane split ratio must be greater than 0 and less than 1"@,
            ),
        )
    } else if !valid_utf8(request.cwd) {
        Err(text_problem("cwd"@))
    } else {
        Ok(
            seq![
                "pane"@,
                "split"@,
                request.pane_id,
                "--direction"@,
                direction_name(request.direction),
            ] + flag_with("--ratio"@, ratio) + seq![
                "--cwd"@,
                decode_utf8(request.cwd),
                focus_flag(request.focus),
            ],
        )
    }
}

/// The arguments that make a tab.
pub open spec fn tab_create_line(request: TabCreateRequestV, rules: PathRules) -> Result<
    Seq<Seq<char>>,
    HerdrErrorV,
> {
    if trimmed(request.workspace_id).len() == 0 {
        Err(empty_problem("workspace id"@))
    } else if path_argument("cwd"@, request.cwd, rules) is Err {
        Err(path_argument("cwd"@, request.cwd, rules)->Err_0)
    } else if request.label is Some && trimmed(request.label->0).len() == 0 {
        Err(empty_problem("tab label"@))
    } else {
        Ok(
            seq![
                "tab"@,
                "create"@,
                "--workspace"@,
                request.workspace_id,
                "--cwd"@,
                decode_utf8(request.cwd),
            ] + flag_with("--label"@, request.label) + seq!["--no-focus"@],
        )
    }
}

/// The command line client of herdr.
#[derive(Debug, PartialEq, Eq)]
pub struct CliHerdrProvider {
    pub binary_path: PathBuf,
    /// The rules by which a path counts as absolute.
    pub path_rules: PathRules,
}

impl CliHerdrProvider {
    pub fn new(binary_path: PathBuf, path_rules: PathRules) -> (provider: CliHerdrProvider)
        ensures
            provider.binary_path@ == binary_path@,
            provider.path_rules == path_rules,
    {
        CliHerdrProvider { binary_path, path_rules }
    }

    /// Reads what a run of herdr gave.
    pub fn read_output(
        &self,
        success: bool,
        status: &str,
        stdout: Vec<u8>,
        stderr: &[u8],
    ) -> (result: Result<Vec<u8>, HerdrError>)
        ensures
            reply(result) == run_output(
                self.binary_path@,
                success,
                status@,
                stdout@,
                stderr@,
            ),
    {
        match parse_error_envelope(stderr) {
            Some(error) => {
                return Err(error);
            },
            None => {},
        }
        match parse_error_envelope(stdout.as_slice()) {
            Some(error) => {
                return Err(error);
            },
            None => {},
        }
        if success {
            assert(stdout.deep_view() =~= stdout@);
            return Ok(stdout);
        }
        let binary = decode_lossy(self.binary_path.bytes.as_slice());
        let printed = decode_lossy(stderr);
        let reason = trim(printed.as_str());
        let mut message = concat3(binary.as_str(), " exited with ", status);
        message.push_str(": ");
        message.push_str(reason.as_str());
        Err(HerdrError::Invocation(message))
    }

    pub fn worktree_open(
        &self,
        cwd: &PathBuf,
        target: &WorktreeOpenTarget,
        focus: bool,
    ) -> (result: Result<Vec<String>, HerdrError>)
        ensures
            reply(result) == worktree_open_line(cwd@, target.deep_view(), focus, self.path_rules),
    {
        let dir = match path_arg("cwd", cwd, self.path_rules) {
            Ok(dir) => dir,
            Err(error) => {
                return Err(error);
            },
        };
        let mut args = no_args();
        self::add(&mut args, "worktree");
        self::add(&mut args, "open");
        self::add(&mut args, "--cwd");
        self::add(&mut args, dir.as_str());
        match target {
            WorktreeOpenTarget::Path(path) => {
                let place = match path_arg("worktree path", path, self.path_rules) {
                    Ok(place) => place,
                    Err(error) => {
                        return Err(error);
                    },
                };
                self::add(&mut args, "--path");
                self::add(&mut args, place.as_str());
            },
            WorktreeOpenTarget::Branch(branch) => {
                match require_nonempty("branch", branch.as_str()) {
                    Ok(_) => {},
                    Err(error) => {
                        return Err(error);
                    },
                }
                self::add(&mut args, "--branch");
                self::add(&mut args, branch.as_str());
            },
        }
        add_focus(&mut args, focus);
        assert(args.deep_view() =~= worktree_open_line(cwd@, target.deep_view(), focus, self.path_rules)->Ok_0);
        Ok(args)
    }

    #[verifier::rlimit(40)]
    pub fn worktree_create(&self, request: &WorktreeCreateRequest) -> (result: Result<
        Vec<String>,
        HerdrError,
    >)
        ensures
            reply(result) == worktree_create_line(request.deep_view(), self.path_rules),
    {
        match require_absolute("cwd", &request.cwd, self.path_rules) {
            Ok(_) => {},
            Err(error) => {
                return Err(error);
            },
        }
        match require_nonempty("branch", request.branch.as_str()) {
            Ok(_) => {},
            Err(error) => {
                return Err(error);
            },
        }
        let dir = match path_arg("cwd", &request.cwd, self.path_rules) {
            Ok(dir) => dir,
            Err(error) => {
                return Err(error);
            },
        };
        let mut args = no_args();
        self::add(&mut args, "worktree");
        self::add(&mut args, "create");
        self::add(&mut args, "--cwd");
        self::add(&mut args, dir.as_str());
        self::add(&mut args, "--branch");
        self::add(&mut args, request.branch.as_str());
        let ghost common = args.deep_view();
        match &request.base {
            Some(base) => {
                match require_nonempty("base", base.as_str()) {
                    Ok(_) => {},
                    Err(error) => {
                        return Err(error);
                    },
                }
                self::add(&mut args, "--base");
                self::add(&mut args, base.as_str());
            },
            None => {},
        }
        assert(args.deep_view() =~= common + flag_with("--base"@, request.deep_view().base));
        let ghost based = args.deep_view();
        let mut place: Option<String> = None;
        match &request.path {
            Some(path) => {
                match path_arg("worktree path", path, self.path_rules) {
                    Ok(text) => {
                        self::add(&mut args, "--path");
                        self::add(&mut args, text.as_str());
                        place = Some(text);
                    },
                    Err(error) => {
                        return Err(error);
                    },
                }
            },
            None => {},
        }
        assert(args.deep_view() =~= based + flag_with("--path"@, place.deep_view()));
        add_focus(&mut args, request.focus);
        assert(args.deep_view() =~= worktree_create_line(request.deep_view(), self.path_rules)->Ok_0);
        Ok(args)
    }

    pub fn worktree_remove(&self, workspace_id: &str, force: bool) -> (result: Result<
        Vec<String>,
        HerdrError,
    >)
        ensures
            reply(result) == if trimmed(workspace_id@).len() == 0 {
                Err::<Seq<Seq<char>>, HerdrErrorV>(empty_problem("workspace id"@))
            } else if force {
                Ok(seq!["worktree"@, "remove"@, "--workspace"@, workspace_id@, "--force"@])
            } else {
                Ok(seq!["worktree"@, "remove"@, "--workspace"@, workspace_id@])
            },
    {
        match require_nonempty("workspace id", workspace_id) {
            Ok(_) => {},
            Err(error) => {
                return Err(error);
            },
        }
        let mut args = no_args();
        self::add(&mut args, "worktree");
        self::add(&mut args, "remove");
        self::add(&mut args, "--workspace");
        self::add(&mut args, workspace_id);
        if force {
            self::add(&mut args, "--force");
            assert(args.deep_view() =~= seq![
                "worktree"@,
                "remove"@,
                "--workspace"@,
                workspace_id@,
                "--force"@,
            ]);
        } else {
            assert(args.deep_view() =~= seq![
                "worktree"@,
                "remove"@,
                "--workspace"@,
                workspace_id@,
            ]);
        }
        Ok(args)
    }

    pub fn worktree_list(&self, cwd: &PathBuf) -> (result: Result<Vec<String>, HerdrError>)
        ensures
            match path_argument("cwd"@, cwd@, self.path_rules) {
                Ok(dir) => reply(result) == Ok::<Seq<Seq<char>>, HerdrErrorV>(
                    seq!["worktree"@, "list"@, "--cwd"@, dir, "--json"@],
                ),
                Err(error) => reply(result) == Err::<Seq<Seq<char>>, HerdrErrorV>(error),
            },
    {
        let dir = match path_arg("cwd", cwd, self.path_rules) {
            Ok(dir) => dir,
            Err(error) => {
                return Err(error);
            },
        };
        let mut args = no_args();
        self::add(&mut args, "worktree");
        self::add(&mut args, "list");
        self::add(&mut args, "--cwd");
        self::add(&mut args, dir.as_str());
        self::add(&mut args, "--json");
        assert(args.deep_view() =~= seq!["worktree"@, "list"@, "--cwd"@, dir@, "--json"@]);
        Ok(args)
    }

    pub fn workspace_list(&self) -> (args: Vec<String>)
        ensures
            args.deep_view() == seq!["workspace"@, "list"@],
    {
        let mut args = no_args();
        self::add(&mut args, "workspace");
        self::add(&mut args, "list");
        assert(args.deep_view() =~= seq!["workspace"@, "list"@]);
        args
    }

    pub fn pane_list(&self) -> (args: Vec<String>)
        ensures
            args.deep_view() == seq!["pane"@, "list"@],
    {
        let mut args = no_args();
        self::add(&mut args, "pane");
        self::add(&mut args, "list");
        assert(args.deep_view() =~= seq!["pane"@, "list"@]);
        args
    }

    pub fn workspace_create(&self, cwd: &PathBuf, focus: bool) -> (result: Result<
        Vec<String>,
        HerdrError,
    >)
        ensures
            match path_argument("cwd"@, cwd@, self.path_rules) {
                Ok(dir) => reply(result) == Ok::<Seq<Seq<char>>, HerdrErrorV>(
                    seq!["workspace"@, "create"@, "--cwd"@, dir, focus_flag(focus)],
                ),
                Err(error) => reply(result) == Err::<Seq<Seq<char>>, HerdrErrorV>(error),
            },
    {
        let dir = match path_arg("cwd", cwd, self.path_rules) {
            Ok(dir) => dir,
            Err(error) => {
                return Err(error);
            },
        };
        let mut args = no_args();
        self::add(&mut args, "workspace");
        self::add(&mut args, "create");
        self::add(&mut args, "--cwd");
        self::add(&mut args, dir.as_str());
        add_focus(&mut args, focus);
        assert(args.deep_view() =~= seq![
            "workspace"@,
            "create"@,
            "--cwd"@,
            dir@,
            focus_flag(focus),
        ]);
        Ok(args)
    }

    pub fn workspace_focus(&self, workspace_id: &str) -> (result: Result<Vec<String>, HerdrError>)
        ensures
            reply(result) == if trimmed(workspace_id@).len() == 0 {
                Err::<Seq<Seq<char>>, HerdrErrorV>(empty_problem("workspace id"@))
            } else {
                Ok(seq!["workspace"@, "focus"@, workspace_id@])
            },
    {
        match require_nonempty("workspace id", workspace_id) {
            Ok(_) => {},
            Err(error) => {
                return Err(error);
            },
        }
        let mut args = no_args();
        self::add(&mut args, "workspace");
        self::add(&mut args, "focus");
        self::add(&mut args, workspace_id);
        assert(args.deep_view() =~= seq!["workspace"@, "focus"@, workspace_id@]);
        Ok(args)
    }

    #[verifier::rlimit(40)]
    pub fn tab_create(&self, request: &TabCreateRequest) -> (result: Result<
        Vec<String>,
        HerdrError,
    >)
        ensures
            reply(result) == tab_create_line(request.deep_view(), self.path_rules),
    {
        match require_nonempty("workspace id", request.workspace_id.as_str()) {
            Ok(_) => {},
            Err(error) => {
                return Err(error);
            },
        }
        let dir = match path_arg("cwd", &request.cwd, self.path_rules) {
            Ok(dir) => dir,
            Err(error) => {
                return Err(error);
            },
        };
        let mut args = no_args();
        self::add(&mut args, "tab");
        self::add(&mut args, "create");
        self::add(&mut args, "--workspace");
        self::add(&mut args, request.workspace_id.as_str());
        self::add(&mut args, "--cwd");
        self::add(&mut args, dir.as_str());
        let ghost common = args.deep_view();
        match &request.label {
            Some(label) => {
                match require_nonempty("tab label", label.as_str()) {
                    Ok(_) => {},
                    Err(error) => {
                        return Err(error);
                    },
                }
                self::add(&mut args, "--label");
                self::add(&mut args, label.as_str());
            },
            None => {},
        }
        assert(args.deep_view() =~= common + flag_with("--label"@, request.deep_view().label));
        self::add(&mut args, "--no-focus");
        assert(args.deep_view() =~= tab_create_line(request.deep_view(), self.path_rules)->Ok_0);
        Ok(args)
    }

    #[verifier::rlimit(40)]
    pub fn pane_split(&self, request: &PaneSplitRequest, ratio: Option<&str>) -> (result: Result<
        Vec<String>,
        HerdrError,
    >)
        ensures
            reply(result) == pane_split_line(request.deep_view(), ratio.deep_view(), self.path_rules),
    {
        match require_nonempty("pane id", request.pane_id.as_str()) {
            Ok(_) => {},
            Err(error) => {
                return Err(error);
            },
        }
        match require_absolute("cwd", &request.cwd, self.path_rules) {
            Ok(_) => {},
            Err(error) => {
                return Err(error);
            },
        }
        match request.ratio {
            Some(value) => {
                if !value.is_fraction() {
                    return Err(
                        HerdrError::InvalidArgument(
                            owned("pane split ratio must be greater than 0 and less than 1"),
                        ),
                    );
                }
            },
            None => {},
        }
        let dir = match path_arg("cwd", &request.cwd, self.path_rules) {
            Ok(dir) => dir,
            Err(error) => {
                return Err(error);
            },
        };
        let mut args = no_args();
        self::add(&mut args, "pane");
        self::add(&mut args, "split");
        self::add(&mut args, request.pane_id.as_str());
        self::add(&mut args, "--direction");
        self::add(&mut args, request.direction.as_str());
        let ghost common = args.deep_view();
        match ratio {
            Some(text) => {
                self::add(&mut args, "--ratio");
                self::add(&mut args, text);
            },
            None => {},
        }
        assert(args.deep_view() =~= common + flag_with("--ratio"@, ratio.deep_view()));
        self::add(&mut args, "--cwd");
        self::add(&mut args, dir.as_str());
        add_focus(&mut args, request.focus);
        assert(args.deep_view() =~= pane_split_line(
            request.deep_view(),
            ratio.deep_view(),
            self.path_rules,
        )->Ok_0);
        Ok(args)
    }

    pub fn pane_run(&self, pane_id: &str, command: &str) -> (result: Result<
        Vec<String>,
        HerdrError,
    >)
        ensures
            reply(result) == if trimmed(pane_id@).len() == 0 {
                Err::<Seq<Seq<char>>, HerdrErrorV>(empty_problem("pane id"@))
            } else if trimmed(command@).len() == 0 {
                Err(empty_problem("command"@))
            } else {
                Ok(seq!["pane"@, "run"@, pane_id@, command@])
            },
    {
        match require_nonempty("pane id", pane_id) {
            Ok(_) => {},
            Err(error) => {
                return Err(error);
            },
        }
        match require_nonempty("command", command) {
            Ok(_) => {},
            Err(error) => {
                return Err(error);
            },
        }
        let mut args = no_args();
        self::add(&mut args, "pane");
        self::add(&mut args, "run");
        self::add(&mut args, pane_id);
        self::add(&mut args, command);
        assert(args.deep_view() =~= seq!["pane"@, "run"@, pane_id@, command@]);
        Ok(args)
    }

    pub fn pane_focus(&self, pane_id: &str) -> (result: Result<Vec<String>, HerdrError>)
        ensures
            reply(result) == if trimmed(pane_id@).len() == 0 {
                Err::<Seq<Seq<char>>, HerdrErrorV>(empty_problem("pane id"@))
            } else {
                Ok(seq!["pane"@, "focus"@, pane_id@])
            },
    {
        match require_nonempty("pane id", pane_id) {
            Ok(_) => {},
            Err(error) => {
                return Err(error);
            },
        }
        let mut args = no_args();
        self::add(&mut args, "pane");
        self::add(&mut args, "focus");
        self::add(&mut args, pane_id);
        assert(args.deep_view() =~= seq!["pane"@, "focus"@, pane_id@]);
        Ok(args)
    }

    pub fn notification_show(&self, title: &str, body: &str) -> (result: Result<
        Vec<String>,
        HerdrError,
    >)
        ensures
            reply(result) == if trimmed(title@).len() == 0 {
                Err::<Seq<Seq<char>>, HerdrErrorV>(empty_problem("notification title"@))
            } else if trimmed(body@).len() == 0 {
                Err(empty_problem("notification body"@))
            } else {
                Ok(seq!["notification"@, "show"@, title@, "--body"@, body@])
            },
    {
        match require_nonempty("notification title", title) {
            Ok(_) => {},
            Err(error) => {
                return Err(error);
            },
        }
        match require_nonempty("notification body", body) {
            Ok(_) => {},
            Err(error) => {
                return Err(error);
            },
        }
        let mut args = no_args();
        self::add(&mut args, "notification");
        self::add(&mut args, "show");
        self::add(&mut args, title);
        self::add(&mut args, "--body");
        self::add(&mut args, body);
        assert(args.deep_view() =~= seq![
            "notification"@,
            "show"@,
            title@,
            "--body"@,
            body@,
        ]);
        Ok(args)
    }
}

/// What is said of an operation that was done but answered with something else than expected.
pub open spec fn unexpected_answer(error: Seq<char>) -> Seq<char> {
    "herdr completed the operation, but returned an unexpected response: "@ + error
}

fn warn_of_answer(error: &str) -> (warning: String)
    ensures
        warning@ == unexpected_answer(error@),
{
    concat(
        "herdr completed the operation, but returned an unexpected response: ",
        error,
    )
}

/// The answer to an opened checkout: an answer that cannot be read is no failure.
pub fn opened_answer(decoded: Result<(OpenedWorktree, bool), String>) -> (response:
    WorktreeOpenResponse)
    ensures
        match decoded {
            Ok((opened, already_open)) => response.opened == Some(opened) && response.already_open
                == Some(already_open) && response.warning is None,
            Err(error) => response.opened is None && response.already_open is None
                && response.deep_view().warning == Some(unexpected_answer(error@)),
        },
{
    match decoded {
        Ok((opened, already_open)) => WorktreeOpenResponse {
            opened: Some(opened),
            already_open: Some(already_open),
            warning: None,
        },
        Err(error) => WorktreeOpenResponse {
            opened: None,
            already_open: None,
            warning: Some(warn_of_answer(error.as_str())),
        },
    }
}

/// The answer to a checkout that was made.
pub fn created_answer(decoded: Result<OpenedWorktree, String>) -> (response: WorktreeCreateResponse)
    ensures
        match decoded {
            Ok(opened) => response.opened == Some(opened) && response.warning is None,
            Err(error) => response.opened is None && response.deep_view().warning == Some(
                unexpected_answer(error@),
            ),
        },
{
    match decoded {
        Ok(opened) => WorktreeCreateResponse { opened: Some(opened), warning: None },
        Err(error) => WorktreeCreateResponse {
            opened: None,
            warning: Some(warn_of_answer(error.as_str())),
        },
    }
}

/// The answer to a checkout that was removed.
pub fn removed_answer(decoded: Result<(), String>) -> (response: WorktreeRemoveResponse)
    ensures
        match decoded {
            Ok(_) => response.warning is None,
            Err(error) => response.deep_view().warning == Some(unexpected_answer(error@)),
        },
{
    match decoded {
        Ok(_) => WorktreeRemoveResponse { warning: None },
        Err(error) => WorktreeRemoveResponse { warning: Some(warn_of_answer(error.as_str())) },
    }
}

/// The answer to a workspace that was made.
pub fn workspace_answer(decoded: Result<String, String>) -> (response: WorkspaceCreateResponse)
    ensures
        match decoded {
            Ok(workspace_id) => response.workspace_id == Some(workspace_id)
                && response.warning is None,
            Err(error) => response.workspace_id is None && response.deep_view().warning == Some(
                unexpected_answer(error@),
            ),
        },
{
    match decoded {
        Ok(workspace_id) => WorkspaceCreateResponse {
            workspace_id: Some(workspace_id),
            warning: None,
        },
        Err(error) => WorkspaceCreateResponse {
            workspace_id: None,
            warning: Some(warn_of_answer(error.as_str())),
        },
    }
}

/// An answer that is needed and cannot be read, with what was printed in quotes.
pub fn unreadable_answer(error: &str, quoted: &str) -> (failure: HerdrError)
    ensures
        failure matches HerdrError::InvalidResponse(message) && message@ == error@
            + "; stdout was "@ + quoted@,
{
    HerdrError::InvalidResponse(concat3(error, "; stdout was ", quoted))
}

/// An answer that is needed and cannot be read, with what was printed.
pub fn invalid_response(error: &str, output: &[u8]) -> (failure: HerdrError)
    ensures
        failure matches HerdrError::InvalidResponse(message) && message@ == error@
            + "; stdout was "@ + quoted_text(trimmed(lossy_text(output@))),
{
    let printed = decode_lossy(output);
    let shown = trim(printed.as_str());
    unreadable_answer(error, quote(shown.as_str()).as_str())
}

} // verus!
