//! Work that is done outside of the picker: what to ask herdr and git for, one call after the
//! other, and what to make of the replies.

use crate::branches::{local_entries, remote_entries, sorted_branches, BranchEntry};
use crate::config::{OnOpenConfig, OnOpenConfigV, OnOpenPaneDirection, Ratio};
use crate::event::{AppEvent, BranchOperationFailure, BranchOperationFailureV, WorktreeRemovalOutcome, WorktreeRemovalOutcomeV};
use crate::git::{is_dirty_worktree_requires_force, is_local_branch_already_exists, GitError, GitErrorV, Listed, Repo, ScanWarning, Worktree};
use crate::herdr::{reply, HerdrError, HerdrErrorV, OpenedWorktree, OpenedWorktreeV, PaneInfo, PaneInfoV, PaneSplitResponse, WorkspaceCreateResponse, WorkspaceInfo, WorktreeCreateRequest, WorktreeCreateRequestV, WorktreeCreateResponse, WorktreeInfo, WorktreeInfoV, WorktreeListResponse, WorktreeOpenResponse, WorktreeOpenTarget, WorktreeOpenTargetV, WorktreeRemoveResponse};
use crate::path::{display, equal_paths, equivalent, same_path, same_place, shown_path, PathBuf, PathRules};
use crate::text::{ascii_lowercase, ascii_lowered_all, chars_of, concat, concat3, contains, decimal, decimal_text, join, joined, occurs, owned, same_text};
use vstd::prelude::*;
use vstd::string::*;
use vstd::utf8::encode_utf8;

verus! {

/// How many remotes are fetched at a time.
pub const FETCH_POOL_SIZE: usize = 4;

/// One call to herdr or to git.
#[derive(Debug, PartialEq, Eq)]
pub enum Call {
    WorktreeOpen { cwd: PathBuf, target: WorktreeOpenTarget, focus: bool },
    WorktreeCreate(WorktreeCreateRequest),
    WorktreeList { cwd: PathBuf },
    WorktreeRemove { workspace_id: String, force: bool },
    WorkspaceFocus { workspace_id: String },
    WorkspaceCreate { cwd: PathBuf, focus: bool },
    PaneList,
    /// A new pane that takes a fraction of a pane; the rest stays with that pane.
    PaneSplit {
        pane_id: String,
        direction: OnOpenPaneDirection,
        new_fraction: Option<Ratio>,
        cwd: PathBuf,
        focus: bool,
    },
    PaneRun { pane_id: String, command: String },
    CreateTrackingBranch { repo_path: PathBuf, branch: String, remote: String },
    RemoveCheckout { repo_path: PathBuf, worktree_path: PathBuf, force: bool },
    PruneWorktrees { repo_path: PathBuf },
}

#[verifier::ext_equal]
pub enum CallV {
    WorktreeOpen { cwd: Seq<u8>, target: WorktreeOpenTargetV, focus: bool },
    WorktreeCreate(WorktreeCreateRequestV),
    WorktreeList { cwd: Seq<u8> },
    WorktreeRemove { workspace_id: Seq<char>, force: bool },
    WorkspaceFocus { workspace_id: Seq<char> },
    WorkspaceCreate { cwd: Seq<u8>, focus: bool },
    PaneList,
    PaneSplit {
        pane_id: Seq<char>,
        direction: OnOpenPaneDirection,
        new_fraction: Option<Ratio>,
        cwd: Seq<u8>,
        focus: bool,
    },
    PaneRun { pane_id: Seq<char>, command: Seq<char> },
    CreateTrackingBranch { repo_path: Seq<u8>, branch: Seq<char>, remote: Seq<char> },
    RemoveCheckout { repo_path: Seq<u8>, worktree_path: Seq<u8>, force: bool },
    PruneWorktrees { repo_path: Seq<u8> },
}

impl DeepView for Call {
    type V = CallV;

    open spec fn deep_view(&self) -> CallV {
        match self {
            Call::WorktreeOpen { cwd, target, focus } => CallV::WorktreeOpen {
                cwd: cwd@,
                target: target.deep_view(),
                focus: *focus,
            },
            Call::WorktreeCreate(request) => CallV::WorktreeCreate(request.deep_view()),
            Call::WorktreeList { cwd } => CallV::WorktreeList { cwd: cwd@ },
            Call::WorktreeRemove { workspace_id, force } => CallV::WorktreeRemove {
                workspace_id: workspace_id@,
                force: *force,
            },
            Call::WorkspaceFocus { workspace_id } => CallV::WorkspaceFocus {
                workspace_id: workspace_id@,
            },
            Call::WorkspaceCreate { cwd, focus } => CallV::WorkspaceCreate {
                cwd: cwd@,
                focus: *focus,
            },
            Call::PaneList => CallV::PaneList,
            Call::PaneSplit { pane_id, direction, new_fraction, cwd, focus } => CallV::PaneSplit {
                pane_id: pane_id@,
                direction: *direction,
                new_fraction: *new_fraction,
                cwd: cwd@,
                focus: *focus,
            },
            Call::PaneRun { pane_id, command } => CallV::PaneRun {
                pane_id: pane_id@,
                command: command@,
            },
            Call::CreateTrackingBranch { repo_path, branch, remote } =>
                CallV::CreateTrackingBranch {
                repo_path: repo_path@,
                branch: branch@,
                remote: remote@,
            },
            Call::RemoveCheckout { repo_path, worktree_path, force } => CallV::RemoveCheckout {
                repo_path: repo_path@,
                worktree_path: worktree_path@,
                force: *force,
            },
            Call::PruneWorktrees { repo_path } => CallV::PruneWorktrees { repo_path: repo_path@ },
        }
    }
}

/// The reply to a call. The directories of panes are canonical.
#[derive(Debug, PartialEq, Eq)]
pub enum Reply {
    WorktreeOpen(Result<WorktreeOpenResponse, HerdrError>),
    WorktreeCreate(Result<WorktreeCreateResponse, HerdrError>),
    WorktreeList(Result<WorktreeListResponse, HerdrError>),
    WorktreeRemove(Result<WorktreeRemoveResponse, HerdrError>),
    WorkspaceFocus(Result<(), HerdrError>),
    WorkspaceCreate(Result<WorkspaceCreateResponse, HerdrError>),
    PaneList(Result<Vec<PaneInfo>, HerdrError>),
    PaneSplit(Result<PaneSplitResponse, HerdrError>),
    PaneRun(Result<(), HerdrError>),
    CreateTrackingBranch(Result<(), GitError>),
    RemoveCheckout(Result<(), GitError>),
    PruneWorktrees(Result<(), GitError>),
}

/// Whether a reply is one to a call.
pub open spec fn replies_to(call: CallV, reply: Reply) -> bool {
    match call {
        CallV::WorktreeOpen { .. } => reply is WorktreeOpen,
        CallV::WorktreeCreate(_) => reply is WorktreeCreate,
        CallV::WorktreeList { .. } => reply is WorktreeList,
        CallV::WorktreeRemove { .. } => reply is WorktreeRemove,
        CallV::WorkspaceFocus { .. } => reply is WorkspaceFocus,
        CallV::WorkspaceCreate { .. } => reply is WorkspaceCreate,
        CallV::PaneList => reply is PaneList,
        CallV::PaneSplit { .. } => reply is PaneSplit,
        CallV::PaneRun { .. } => reply is PaneRun,
        CallV::CreateTrackingBranch { .. } => reply is CreateTrackingBranch,
        CallV::RemoveCheckout { .. } => reply is RemoveCheckout,
        CallV::PruneWorktrees { .. } => reply is PruneWorktrees,
    }
}

/// How a piece of work ended.
#[derive(Debug, PartialEq, Eq)]
pub enum Finished {
    Opened { warning: Option<String> },
    OpenFailed(String),
    BranchFailed { repo_path: PathBuf, failure: BranchOperationFailure },
    Removal {
        repo_path: PathBuf,
        branch_name: String,
        worktree_path: PathBuf,
        outcome: WorktreeRemovalOutcome,
    },
}

#[verifier::ext_equal]
pub enum FinishedV {
    Opened { warning: Option<Seq<char>> },
    OpenFailed(Seq<char>),
    BranchFailed { repo_path: Seq<u8>, failure: BranchOperationFailureV },
    Removal {
        repo_path: Seq<u8>,
        branch_name: Seq<char>,
        worktree_path: Seq<u8>,
        outcome: WorktreeRemovalOutcomeV,
    },
}

impl DeepView for Finished {
    type V = FinishedV;

    open spec fn deep_view(&self) -> FinishedV {
        match self {
            Finished::Opened { warning } => FinishedV::Opened { warning: warning.deep_view() },
            Finished::OpenFailed(message) => FinishedV::OpenFailed(message@),
            Finished::BranchFailed { repo_path, failure } => FinishedV::BranchFailed {
                repo_path: repo_path@,
                failure: failure.deep_view(),
            },
            Finished::Removal { repo_path, branch_name, worktree_path, outcome } =>
                FinishedV::Removal {
                repo_path: repo_path@,
                branch_name: branch_name@,
                worktree_path: worktree_path@,
                outcome: outcome.deep_view(),
            },
        }
    }
}

impl Finished {
    /// The event that tells the picker.
    pub fn into_event(self) -> (event: AppEvent)
        ensures
            event == match self {
                Finished::Opened { warning } => AppEvent::RepoOpened { warning },
                Finished::OpenFailed(message) => AppEvent::RepoOpenFailed(message),
                Finished::BranchFailed { repo_path, failure } => AppEvent::BranchOperationFailed {
                    repo_path,
                    failure,
                },
                Finished::Removal { repo_path, branch_name, worktree_path, outcome } =>
                    AppEvent::WorktreeRemovalFinished {
                    repo_path,
                    branch_name,
                    worktree_path,
                    outcome,
                },
            },
    {
        match self {
            Finished::Opened { warning } => AppEvent::RepoOpened { warning },
            Finished::OpenFailed(message) => AppEvent::RepoOpenFailed(message),
            Finished::BranchFailed { repo_path, failure } => AppEvent::BranchOperationFailed {
                repo_path,
                failure,
            },
            Finished::Removal { repo_path, branch_name, worktree_path, outcome } =>
                AppEvent::WorktreeRemovalFinished {
                repo_path,
                branch_name,
                worktree_path,
                outcome,
            },
        }
    }
}

/// How a branch is opened: by its checkout, or by a new one.
#[derive(Debug, Clone, Copy, PartialEq, Eq, Structural)]
pub enum BranchOpenRoute {
    Open,
    Create,
}

/// A branch that is being opened.
#[derive(Debug, PartialEq, Eq)]
pub struct BranchOpening {
    pub repo_path: PathBuf,
    pub branch_name: String,
    pub route: BranchOpenRoute,
    pub retried: bool,
    /// For a branch that tracks a remote one, whether it was created for that.
    pub tracking_created: Option<bool>,
    pub on_open: OnOpenConfig,
}

#[verifier::ext_equal]
pub struct BranchOpeningV {
    pub repo_path: Seq<u8>,
    pub branch_name: Seq<char>,
    pub route: BranchOpenRoute,
    pub retried: bool,
    pub tracking_created: Option<bool>,
    pub on_open: OnOpenConfigV,
}

impl DeepView for BranchOpening {
    type V = BranchOpeningV;

    open spec fn deep_view(&self) -> BranchOpeningV {
        BranchOpeningV {
            repo_path: self.repo_path@,
            branch_name: self.branch_name@,
            route: self.route,
            retried: self.retried,
            tracking_created: self.tracking_created,
            on_open: self.on_open.deep_view(),
        }
    }
}

/// The panes of a new workspace that are being opened.
#[derive(Debug, PartialEq, Eq)]
pub struct PaneSetup {
    pub on_open: OnOpenConfig,
    pub index: usize,
    pub errors: Vec<String>,
    pub root_pane_id: String,
    pub checkout_path: String,
    /// The warning that came with the workspace.
    pub warning: Option<String>,
}

#[verifier::ext_equal]
pub struct PaneSetupV {
    pub on_open: OnOpenConfigV,
    pub index: int,
    pub errors: Seq<Seq<char>>,
    pub root_pane_id: Seq<char>,
    pub checkout_path: Seq<char>,
    pub warning: Option<Seq<char>>,
}

impl DeepView for PaneSetup {
    type V = PaneSetupV;

    open spec fn deep_view(&self) -> PaneSetupV {
        PaneSetupV {
            on_open: self.on_open.deep_view(),
            index: self.index as int,
            errors: self.errors.deep_view(),
            root_pane_id: self.root_pane_id@,
            checkout_path: self.checkout_path@,
            warning: self.warning.deep_view(),
        }
    }
}

/// A checkout that is being removed.
#[derive(Debug, PartialEq, Eq)]
pub struct Removal {
    pub repo_path: PathBuf,
    pub branch_name: String,
    pub worktree_path: PathBuf,
    pub force: bool,
    pub path_rules: PathRules,
}

#[verifier::ext_equal]
pub struct RemovalV {
    pub repo_path: Seq<u8>,
    pub branch_name: Seq<char>,
    pub worktree_path: Seq<u8>,
    pub force: bool,
    pub path_rules: PathRules,
}

impl DeepView for Removal {
    type V = RemovalV;

    open spec fn deep_view(&self) -> RemovalV {
        RemovalV {
            repo_path: self.repo_path@,
            branch_name: self.branch_name@,
            worktree_path: self.worktree_path@,
            force: self.force,
            path_rules: self.path_rules,
        }
    }
}

/// A piece of work that waits for a reply.
#[derive(Debug, PartialEq, Eq)]
pub enum Operation {
    OpenRepo { on_open: OnOpenConfig },
    FindFolder { target: PathBuf, path_rules: PathRules },
    FocusFolder,
    CreateFolder,
    TrackRemote { repo_path: PathBuf, branch_name: String, on_open: OnOpenConfig },
    OpenBranch(BranchOpening),
    RefreshRoute(BranchOpening, HerdrError),
    CreateBranch { repo_path: PathBuf, on_open: OnOpenConfig },
    SplitPane(PaneSetup),
    RunPane(PaneSetup),
    ListCheckouts(Removal),
    RemoveWorkspace(Removal),
    RemoveCheckout(Removal),
    Prune(Removal),
}

#[verifier::ext_equal]
pub enum OperationV {
    OpenRepo { on_open: OnOpenConfigV },
    FindFolder { target: Seq<u8>, path_rules: PathRules },
    FocusFolder,
    CreateFolder,
    TrackRemote { repo_path: Seq<u8>, branch_name: Seq<char>, on_open: OnOpenConfigV },
    OpenBranch(BranchOpeningV),
    RefreshRoute(BranchOpeningV, HerdrErrorV),
    CreateBranch { repo_path: Seq<u8>, on_open: OnOpenConfigV },
    SplitPane(PaneSetupV),
    RunPane(PaneSetupV),
    ListCheckouts(RemovalV),
    RemoveWorkspace(RemovalV),
    RemoveCheckout(RemovalV),
    Prune(RemovalV),
}

impl DeepView for Operation {
    type V = OperationV;

    open spec fn deep_view(&self) -> OperationV {
        match self {
            Operation::OpenRepo { on_open } => OperationV::OpenRepo {
                on_open: on_open.deep_view(),
            },
            Operation::FindFolder { target, path_rules } => OperationV::FindFolder {
                target: target@,
                path_rules: *path_rules,
            },
            Operation::FocusFolder => OperationV::FocusFolder,
            Operation::CreateFolder => OperationV::CreateFolder,
            Operation::TrackRemote { repo_path, branch_name, on_open } => OperationV::TrackRemote {
                repo_path: repo_path@,
                branch_name: branch_name@,
                on_open: on_open.deep_view(),
            },
            Operation::OpenBranch(opening) => OperationV::OpenBranch(opening.deep_view()),
            Operation::RefreshRoute(opening, error) => OperationV::RefreshRoute(
                opening.deep_view(),
                error.deep_view(),
            ),
            Operation::CreateBranch { repo_path, on_open } => OperationV::CreateBranch {
                repo_path: repo_path@,
                on_open: on_open.deep_view(),
            },
            Operation::SplitPane(setup) => OperationV::SplitPane(setup.deep_view()),
            Operation::RunPane(setup) => OperationV::RunPane(setup.deep_view()),
            Operation::ListCheckouts(removal) => OperationV::ListCheckouts(removal.deep_view()),
            Operation::RemoveWorkspace(removal) => OperationV::RemoveWorkspace(
                removal.deep_view(),
            ),
            Operation::RemoveCheckout(removal) => OperationV::RemoveCheckout(removal.deep_view()),
            Operation::Prune(removal) => OperationV::Prune(removal.deep_view()),
        }
    }
}

/// What comes next: a call whose reply the work waits for, or the end.
#[derive(Debug, PartialEq, Eq)]
pub enum Next {
    Ask(Operation, Call),
    Done(Finished),
}

#[verifier::ext_equal]
pub enum NextV {
    Ask(OperationV, CallV),
    Done(FinishedV),
}

impl DeepView for Next {
    type V = NextV;

    open spec fn deep_view(&self) -> NextV {
        match self {
            Next::Ask(operation, call) => NextV::Ask(operation.deep_view(), call.deep_view()),
            Next::Done(finished) => NextV::Done(finished.deep_view()),
        }
    }
}

/// Whether the work waits for a reply, and for one of this kind.
pub open spec fn awaits(operation: OperationV, reply: Reply) -> bool {
    match operation {
        OperationV::OpenRepo { .. } => reply is WorktreeOpen,
        OperationV::FindFolder { .. } => reply is PaneList,
        OperationV::FocusFolder => reply is WorkspaceFocus,
        OperationV::CreateFolder => reply is WorkspaceCreate,
        OperationV::TrackRemote { .. } => reply is CreateTrackingBranch,
        OperationV::OpenBranch(opening) => match opening.route {
            BranchOpenRoute::Open => reply is WorktreeOpen,
            BranchOpenRoute::Create => reply is WorktreeCreate,
        },
        OperationV::RefreshRoute(_, _) => reply is WorktreeList,
        OperationV::CreateBranch { .. } => reply is WorktreeCreate,
        OperationV::SplitPane(_) => reply is PaneSplit,
        OperationV::RunPane(_) => reply is PaneRun,
        OperationV::ListCheckouts(_) => reply is WorktreeList,
        OperationV::RemoveWorkspace(_) => reply is WorktreeRemove,
        OperationV::RemoveCheckout(_) => reply is RemoveCheckout,
        OperationV::Prune(_) => reply is PruneWorktrees,
    }
}

/// Whether the work is at a pane that there is.
pub open spec fn operation_wf(operation: OperationV) -> bool {
    match operation {
        OperationV::SplitPane(setup) => 0 <= setup.index < setup.on_open.panes.len(),
        OperationV::RunPane(setup) => 0 <= setup.index < setup.on_open.panes.len(),
        _ => true,
    }
}

/// Both warnings in one line.
pub open spec fn combined(first: Option<Seq<char>>, second: Option<Seq<char>>) -> Option<
    Seq<char>,
> {
    match (first, second) {
        (Some(first), Some(second)) => Some(first + "; "@ + second),
        (Some(warning), None) => Some(warning),
        (None, other) => other,
    }
}

pub fn combine_warnings(first: Option<String>, second: Option<String>) -> (warning: Option<String>)
    ensures
        warning.deep_view() == combined(first.deep_view(), second.deep_view()),
{
    match (first, second) {
        (Some(first), Some(second)) => Some(concat3(first.as_str(), "; ", second.as_str())),
        (Some(warning), None) => Some(warning),
        (None, other) => other,
    }
}

/// An error for people to read, in friendlier words where work is going on.
pub open spec fn friendly(error: HerdrErrorV) -> Seq<char> {
    if error is WorktreeOperationInProgress {
        "Another worktree operation is already in progress; wait for it to finish and try again."@
    } else {
        error.text()
    }
}

pub fn friendly_branch_error(error: &HerdrError) -> (text: String)
    ensures
        text@ == friendly(error.deep_view()),
{
    match error {
        HerdrError::WorktreeOperationInProgress(_) => owned(
            "Another worktree operation is already in progress; wait for it to finish and try again.",
        ),
        _ => error.to_text(),
    }
}

/// Whether an error says that the other route is the right one.
pub open spec fn wrong_route(route: BranchOpenRoute, error: HerdrErrorV) -> bool {
    match (route, error) {
        (BranchOpenRoute::Create, HerdrErrorV::WorktreeCreateFailed(message)) => occurs(
            ascii_lowered_all(message),
            "already checked out"@,
        ),
        (BranchOpenRoute::Open, HerdrErrorV::WorktreeNotFound(_)) => true,
        (BranchOpenRoute::Open, HerdrErrorV::WorktreeOpenFailed(message)) => occurs(
            ascii_lowered_all(message),
            "not found"@,
        ) || occurs(ascii_lowered_all(message), "no worktree"@),
        _ => false,
    }
}

fn lowered(message: &str) -> (text: String)
    ensures
        text@ == ascii_lowered_all(message@),
{
    let chars = chars_of(message);
    ascii_lowercase(&chars)
}

pub fn is_wrong_route_failure(route: BranchOpenRoute, error: &HerdrError) -> (answer: bool)
    ensures
        answer == wrong_route(route, error.deep_view()),
{
    match (route, error) {
        (BranchOpenRoute::Create, HerdrError::WorktreeCreateFailed(message)) => {
            let text = lowered(message.as_str());
            contains(text.as_str(), "already checked out")
        },
        (BranchOpenRoute::Open, HerdrError::WorktreeNotFound(_)) => true,
        (BranchOpenRoute::Open, HerdrError::WorktreeOpenFailed(message)) => {
            let text = lowered(message.as_str());
            contains(text.as_str(), "not found") || contains(text.as_str(), "no worktree")
        },
        _ => false,
    }
}

/// The call that opens a pane of a new workspace.
pub open spec fn split_call(setup: PaneSetupV) -> CallV {
    let pane = setup.on_open.panes[setup.index];
    CallV::PaneSplit {
        pane_id: setup.root_pane_id,
        direction: pane.direction,
        new_fraction: pane.ratio,
        cwd: encode_utf8(setup.checkout_path),
        focus: false,
    }
}

/// What went wrong with the panes of a new workspace.
pub open spec fn pane_warning(errors: Seq<Seq<char>>) -> Option<Seq<char>> {
    if errors.len() == 0 {
        None
    } else {
        Some("on_open: "@ + joined(errors, "; "@))
    }
}

/// The next pane, or the end behind the last one.
pub open spec fn pane_step(setup: PaneSetupV) -> NextV {
    if setup.index < setup.on_open.panes.len() {
        NextV::Ask(OperationV::SplitPane(setup), split_call(setup))
    } else {
        NextV::Done(
            FinishedV::Opened { warning: combined(setup.warning, pane_warning(setup.errors)) },
        )
    }
}

/// The setup behind its pane, with what went wrong with it.
pub open spec fn past_pane(setup: PaneSetupV, error: Option<Seq<char>>) -> PaneSetupV {
    PaneSetupV {
        index: setup.index + 1,
        errors: match error {
            Some(error) => setup.errors.push(error),
            None => setup.errors,
        },
        ..setup
    }
}

pub open spec fn pane_error(index: int, what: Seq<char>, error: HerdrErrorV) -> Seq<char> {
    "pane "@ + decimal((index + 1) as nat) + what + error.text()
}

/// A workspace is open; a new one gets its panes.
pub open spec fn workspace_opened(
    on_open: OnOpenConfigV,
    opened: Option<OpenedWorktreeV>,
    is_new: bool,
    warning: Option<Seq<char>>,
) -> NextV {
    match opened {
        Some(opened) => if is_new {
            pane_step(
                PaneSetupV {
                    on_open,
                    index: 0,
                    errors: Seq::empty(),
                    root_pane_id: opened.root_pane_id,
                    checkout_path: opened.path,
                    warning,
                },
            )
        } else {
            NextV::Done(FinishedV::Opened { warning })
        },
        None => NextV::Done(FinishedV::Opened { warning }),
    }
}

/// The call that opens a branch.
pub open spec fn route_call(opening: BranchOpeningV) -> CallV {
    match opening.route {
        BranchOpenRoute::Open => CallV::WorktreeOpen {
            cwd: opening.repo_path,
            target: WorktreeOpenTargetV::Branch(opening.branch_name),
            focus: true,
        },
        BranchOpenRoute::Create => CallV::WorktreeCreate(
            WorktreeCreateRequestV {
                cwd: opening.repo_path,
                branch: opening.branch_name,
                base: None,
                path: None,
                focus: true,
            },
        ),
    }
}

pub open spec fn route_step(opening: BranchOpeningV) -> NextV {
    NextV::Ask(OperationV::OpenBranch(opening), route_call(opening))
}

pub open spec fn branch_failed(repo_path: Seq<u8>, message: Seq<char>) -> NextV {
    NextV::Done(
        FinishedV::BranchFailed {
            repo_path,
            failure: BranchOperationFailureV::Failed(message),
        },
    )
}

/// A branch could not be opened. One that tracks a remote branch is there all the same.
pub open spec fn opening_failed(opening: BranchOpeningV, error: HerdrErrorV) -> NextV {
    match opening.tracking_created {
        Some(tracking_created) => NextV::Done(
            FinishedV::BranchFailed {
                repo_path: opening.repo_path,
                failure: BranchOperationFailureV::LocalBranchAvailable {
                    branch_name: opening.branch_name,
                    tracking_created,
                    message: friendly(error),
                },
            },
        ),
        None => branch_failed(opening.repo_path, friendly(error)),
    }
}

/// Where an attempt to open a branch failed: checkouts are listed once to see whether the
/// other route is the right one by now.
pub open spec fn route_failed(opening: BranchOpeningV, error: HerdrErrorV) -> NextV {
    if !opening.retried && wrong_route(opening.route, error) {
        NextV::Ask(
            OperationV::RefreshRoute(opening, error),
            CallV::WorktreeList { cwd: opening.repo_path },
        )
    } else {
        opening_failed(opening, error)
    }
}

/// Whether a branch is checked out somewhere.
pub open spec fn is_checked_out(worktrees: Seq<WorktreeInfoV>, name: Seq<char>) -> bool {
    exists|i: int| 0 <= i < worktrees.len() && (#[trigger] worktrees[i]).branch == Some(name)
}

pub open spec fn route_for(worktrees: Seq<WorktreeInfoV>, name: Seq<char>) -> BranchOpenRoute {
    if is_checked_out(worktrees, name) {
        BranchOpenRoute::Open
    } else {
        BranchOpenRoute::Create
    }
}

/// The first pane in a directory.
pub open spec fn pane_in(panes: Seq<PaneInfoV>, target: Seq<u8>, rules: PathRules) -> Option<
    PaneInfoV,
>
    decreases panes.len(),
{
    if panes.len() == 0 {
        None
    } else if panes[0].cwd is Some && same_place(encode_utf8(panes[0].cwd->0), target, rules) {
        Some(panes[0])
    } else {
        pane_in(panes.drop_first(), target, rules)
    }
}

pub open spec fn removal_done(removal: RemovalV, outcome: WorktreeRemovalOutcomeV) -> NextV {
    NextV::Done(
        FinishedV::Removal {
            repo_path: removal.repo_path,
            branch_name: removal.branch_name,
            worktree_path: removal.worktree_path,
            outcome,
        },
    )
}

/// The first listed checkout at a path.
pub open spec fn checkout_at(
    worktrees: Seq<WorktreeInfoV>,
    path: Seq<u8>,
    rules: PathRules,
) -> Option<WorktreeInfoV>
    decreases worktrees.len(),
{
    if worktrees.len() == 0 {
        None
    } else if same_place(encode_utf8(worktrees[0].path), path, rules) {
        Some(worktrees[0])
    } else {
        checkout_at(worktrees.drop_first(), path, rules)
    }
}

/// Removing a checkout whose state is known: through the workspace that shows it, else
/// through git.
pub open spec fn after_listing(removal: RemovalV, worktrees: Seq<WorktreeInfoV>) -> NextV {
    match checkout_at(worktrees, removal.worktree_path, removal.path_rules) {
        Some(worktree) => match worktree.open_workspace_id {
            Some(workspace_id) => NextV::Ask(
                OperationV::RemoveWorkspace(removal),
                CallV::WorktreeRemove { workspace_id, force: removal.force },
            ),
            None => NextV::Ask(
                OperationV::RemoveCheckout(removal),
                CallV::RemoveCheckout {
                    repo_path: removal.repo_path,
                    worktree_path: removal.worktree_path,
                    force: removal.force,
                },
            ),
        },
        None => removal_done(
            removal,
            WorktreeRemovalOutcomeV::Failed(
                "could not confirm checkout state before removal because "@ + shown_path(
                    removal.worktree_path,
                    removal.path_rules,
                ) + " was not returned by herdr"@,
            ),
        ),
    }
}

/// What a refused removal comes to: changes ask for force, unless force was used.
pub open spec fn herdr_removal_error(error: HerdrErrorV, force: bool) -> WorktreeRemovalOutcomeV {
    if error is DirtyWorktreeRequiresForce && !force {
        WorktreeRemovalOutcomeV::DirtyRequiresForce
    } else {
        WorktreeRemovalOutcomeV::Failed(friendly(error))
    }
}

pub open spec fn git_removal_error(error: GitErrorV, force: bool) -> WorktreeRemovalOutcomeV {
    if error is DirtyWorktreeRequiresForce && !force {
        WorktreeRemovalOutcomeV::DirtyRequiresForce
    } else {
        WorktreeRemovalOutcomeV::Failed(error.text())
    }
}

/// What comes after a reply that the work waits for.
pub open spec fn next_step(operation: OperationV, received: Reply) -> NextV {
    match (operation, received) {
        (OperationV::OpenRepo { on_open }, Reply::WorktreeOpen(result)) => match reply(result) {
            Ok(response) => workspace_opened(
                on_open,
                response.opened,
                response.already_open == Some(false),
                response.warning,
            ),
            Err(error) => NextV::Done(FinishedV::OpenFailed(error.text())),
        },
        (OperationV::FindFolder { target, path_rules }, Reply::PaneList(result)) => match reply(
            result,
        ) {
            Ok(panes) => match pane_in(panes, target, path_rules) {
                Some(pane) => NextV::Ask(
                    OperationV::FocusFolder,
                    CallV::WorkspaceFocus { workspace_id: pane.workspace_id },
                ),
                None => NextV::Ask(
                    OperationV::CreateFolder,
                    CallV::WorkspaceCreate { cwd: target, focus: true },
                ),
            },
            Err(error) => NextV::Done(FinishedV::OpenFailed(error.text())),
        },
        (OperationV::FocusFolder, Reply::WorkspaceFocus(result)) => match result {
            Ok(_) => NextV::Done(FinishedV::Opened { warning: None }),
            Err(error) => NextV::Done(FinishedV::OpenFailed(error.deep_view().text())),
        },
        (OperationV::CreateFolder, Reply::WorkspaceCreate(result)) => match reply(result) {
            Ok(response) => NextV::Done(FinishedV::Opened { warning: response.warning }),
            Err(error) => NextV::Done(FinishedV::OpenFailed(error.text())),
        },
        (
            OperationV::TrackRemote { repo_path, branch_name, on_open },
            Reply::CreateTrackingBranch(result),
        ) => {
            let opening = |created: bool|
                BranchOpeningV {
                    repo_path,
                    branch_name,
                    route: BranchOpenRoute::Create,
                    retried: false,
                    tracking_created: Some(created),
                    on_open,
                };
            match result {
                Ok(_) => route_step(opening(true)),
                Err(error) => if error.deep_view() is LocalBranchAlreadyExists {
                    route_step(opening(false))
                } else {
                    branch_failed(repo_path, error.deep_view().text())
                },
            }
        },
        (OperationV::OpenBranch(opening), Reply::WorktreeOpen(result)) => match reply(result) {
            Ok(response) => workspace_opened(
                opening.on_open,
                response.opened,
                response.already_open == Some(false),
                response.warning,
            ),
            Err(error) => route_failed(opening, error),
        },
        (OperationV::OpenBranch(opening), Reply::WorktreeCreate(result)) => match reply(result) {
            Ok(response) => workspace_opened(
                opening.on_open,
                response.opened,
                true,
                response.warning,
            ),
            Err(error) => route_failed(opening, error),
        },
        (OperationV::RefreshRoute(opening, error), Reply::WorktreeList(result)) => match reply(
            result,
        ) {
            Ok(response) => {
                let route = route_for(response.worktrees, opening.branch_name);
                if route != opening.route {
                    route_step(BranchOpeningV { route, retried: true, ..opening })
                } else {
                    opening_failed(opening, error)
                }
            },
            Err(_) => opening_failed(opening, error),
        },
        (OperationV::CreateBranch { repo_path, on_open }, Reply::WorktreeCreate(result)) =>
            match reply(result) {
            Ok(response) => workspace_opened(on_open, response.opened, true, response.warning),
            Err(error) => branch_failed(repo_path, friendly(error)),
        },
        (OperationV::SplitPane(setup), Reply::PaneSplit(result)) => match reply(result) {
            Ok(response) => NextV::Ask(
                OperationV::RunPane(setup),
                CallV::PaneRun {
                    pane_id: response.pane_id,
                    command: setup.on_open.panes[setup.index].command,
                },
            ),
            Err(error) => pane_step(
                past_pane(setup, Some(pane_error(setup.index, " split failed: "@, error))),
            ),
        },
        (OperationV::RunPane(setup), Reply::PaneRun(result)) => match result {
            Ok(_) => pane_step(past_pane(setup, None)),
            Err(error) => pane_step(
                past_pane(
                    setup,
                    Some(pane_error(setup.index, " run failed: "@, error.deep_view())),
                ),
            ),
        },
        (OperationV::ListCheckouts(removal), Reply::WorktreeList(result)) => match reply(result) {
            Ok(response) => after_listing(removal, response.worktrees),
            Err(error) => removal_done(
                removal,
                WorktreeRemovalOutcomeV::Failed(
                    "could not refresh open checkout state before removal: "@ + error.text(),
                ),
            ),
        },
        (OperationV::RemoveWorkspace(removal), Reply::WorktreeRemove(result)) => match reply(
            result,
        ) {
            Ok(response) => removal_done(
                removal,
                WorktreeRemovalOutcomeV::Removed { warning: response.warning },
            ),
            Err(error) => removal_done(removal, herdr_removal_error(error, removal.force)),
        },
        (OperationV::RemoveCheckout(removal), Reply::RemoveCheckout(result)) => match result {
            Ok(_) => NextV::Ask(
                OperationV::Prune(removal),
                CallV::PruneWorktrees { repo_path: removal.repo_path },
            ),
            Err(error) => removal_done(
                removal,
                git_removal_error(error.deep_view(), removal.force),
            ),
        },
        (OperationV::Prune(removal), Reply::PruneWorktrees(result)) => removal_done(
            removal,
            WorktreeRemovalOutcomeV::Removed {
                warning: match result {
                    Ok(_) => None,
                    Err(error) => Some(
                        "checkout was removed, but git worktree prune failed: "@
                            + error.deep_view().text(),
                    ),
                },
            },
        ),
        _ => arbitrary(),
    }
}

fn next_pane(setup: PaneSetup) -> (next: Next)
    requires
        0 <= setup.index <= setup.on_open.panes@.len(),
    ensures
        next.deep_view() == pane_step(setup.deep_view()),
{
    assert(setup.on_open.deep_view().panes.len() == setup.on_open.panes@.len());
    if setup.index < setup.on_open.panes.len() {
        let pane = &setup.on_open.panes[setup.index];
        assert(setup.deep_view().on_open.panes[setup.index as int] == pane.deep_view());
        let call = Call::PaneSplit {
            pane_id: setup.root_pane_id.clone(),
            direction: pane.direction,
            new_fraction: pane.ratio,
            cwd: PathBuf::new(setup.checkout_path.as_str()),
            focus: false,
        };
        return Next::Ask(Operation::SplitPane(setup), call);
    }
    assert(setup.errors.deep_view().len() == setup.errors@.len());
    let problems = if setup.errors.len() == 0 {
        None
    } else {
        let all = join(&setup.errors, "; ");
        Some(concat("on_open: ", all.as_str()))
    };
    Next::Done(Finished::Opened { warning: combine_warnings(setup.warning, problems) })
}

fn open_workspace(
    on_open: OnOpenConfig,
    opened: Option<OpenedWorktree>,
    is_new: bool,
    warning: Option<String>,
) -> (next: Next)
    ensures
        next.deep_view() == workspace_opened(
            on_open.deep_view(),
            opened.deep_view(),
            is_new,
            warning.deep_view(),
        ),
{
    match opened {
        Some(opened) => if is_new {
            let setup = PaneSetup {
                on_open,
                index: 0,
                errors: Vec::new(),
                root_pane_id: opened.root_pane_id,
                checkout_path: opened.path,
                warning,
            };
            assert(setup.errors.deep_view() =~= Seq::<Seq<char>>::empty());
            next_pane(setup)
        } else {
            Next::Done(Finished::Opened { warning })
        },
        None => Next::Done(Finished::Opened { warning }),
    }
}

fn skip_pane(setup: PaneSetup, error: Option<String>) -> (next: Next)
    requires
        setup.index < setup.on_open.panes@.len(),
    ensures
        next.deep_view() == pane_step(past_pane(setup.deep_view(), error.deep_view())),
{
    let ghost start = setup.deep_view();
    let _count: usize = setup.on_open.panes.len();
    let mut setup = setup;
    match error {
        Some(error) => {
            let ghost added = error@;
            setup.errors.push(error);
            assert(setup.errors.deep_view() =~= start.errors.push(added));
        },
        None => {},
    }
    setup.index = setup.index + 1;
    assert(setup.deep_view() =~= past_pane(start, error.deep_view()));
    next_pane(setup)
}

fn describe_pane_error(index: usize, what: &str, error: &HerdrError) -> (text: String)
    requires
        index < usize::MAX,
    ensures
        text@ == pane_error(index as int, what@, error.deep_view()),
{
    let number = decimal_text(index as u64 + 1);
    let head = concat3("pane ", number.as_str(), what);
    concat(head.as_str(), error.to_text().as_str())
}

fn ask_route(opening: BranchOpening) -> (next: Next)
    ensures
        next.deep_view() == route_step(opening.deep_view()),
{
    let call = match opening.route {
        BranchOpenRoute::Open => Call::WorktreeOpen {
            cwd: opening.repo_path.clone(),
            target: WorktreeOpenTarget::Branch(opening.branch_name.clone()),
            focus: true,
        },
        BranchOpenRoute::Create => Call::WorktreeCreate(
            WorktreeCreateRequest {
                cwd: opening.repo_path.clone(),
                branch: opening.branch_name.clone(),
                base: None,
                path: None,
                focus: true,
            },
        ),
    };
    Next::Ask(Operation::OpenBranch(opening), call)
}

fn fail_branch(repo_path: PathBuf, message: String) -> (next: Next)
    ensures
        next.deep_view() == branch_failed(repo_path@, message@),
{
    Next::Done(
        Finished::BranchFailed { repo_path, failure: BranchOperationFailure::Failed(message) },
    )
}

fn fail_opening(opening: BranchOpening, error: HerdrError) -> (next: Next)
    ensures
        next.deep_view() == opening_failed(opening.deep_view(), error.deep_view()),
{
    let message = friendly_branch_error(&error);
    match opening.tracking_created {
        Some(tracking_created) => Next::Done(
            Finished::BranchFailed {
                repo_path: opening.repo_path,
                failure: BranchOperationFailure::LocalBranchAvailable {
                    branch_name: opening.branch_name,
                    tracking_created,
                    message,
                },
            },
        ),
        None => fail_branch(opening.repo_path, message),
    }
}

fn fail_route(opening: BranchOpening, error: HerdrError) -> (next: Next)
    ensures
        next.deep_view() == route_failed(opening.deep_view(), error.deep_view()),
{
    if !opening.retried && is_wrong_route_failure(opening.route, &error) {
        let cwd = opening.repo_path.clone();
        Next::Ask(Operation::RefreshRoute(opening, error), Call::WorktreeList { cwd })
    } else {
        fail_opening(opening, error)
    }
}

fn find_route(worktrees: &Vec<WorktreeInfo>, name: &str) -> (route: BranchOpenRoute)
    ensures
        route == route_for(worktrees.deep_view(), name@),
{
    let mut i: usize = 0;
    while i < worktrees.len()
        invariant
            i <= worktrees.len(),
            forall|k: int|
                0 <= k < i ==> (#[trigger] worktrees.deep_view()[k]).branch != Some(name@),
        decreases worktrees.len() - i,
    {
        let here = match &worktrees[i].branch {
            Some(branch) => same_text(branch.as_str(), name),
            None => false,
        };
        if here {
            assert(worktrees.deep_view()[i as int].branch == Some(name@));
            return BranchOpenRoute::Open;
        }
        i = i + 1;
    }
    BranchOpenRoute::Create
}

fn find_pane<'a>(panes: &'a Vec<PaneInfo>, target: &PathBuf, rules: PathRules) -> (found: Option<
    &'a PaneInfo,
>)
    ensures
        found.deep_view() == pane_in(panes.deep_view(), target@, rules),
{
    let ghost all = panes.deep_view();
    let mut i: usize = 0;
    assert(all.skip(0) =~= all);
    while i < panes.len()
        invariant
            i <= panes.len(),
            all == panes.deep_view(),
            pane_in(all, target@, rules) == pane_in(all.skip(i as int), target@, rules),
        decreases panes.len() - i,
    {
        proof {
            assert(all.skip(i as int)[0] == panes@[i as int].deep_view());
            assert(all.skip(i as int).drop_first() =~= all.skip(i + 1));
        }
        let here = match &panes[i].cwd {
            Some(cwd) => equivalent(&PathBuf::new(cwd.as_str()), target, rules),
            None => false,
        };
        if here {
            return Some(&panes[i]);
        }
        i = i + 1;
    }
    assert(all.skip(i as int) =~= Seq::<PaneInfoV>::empty());
    None
}

fn find_checkout<'a>(
    worktrees: &'a Vec<WorktreeInfo>,
    path: &PathBuf,
    rules: PathRules,
) -> (found: Option<&'a WorktreeInfo>)
    ensures
        found.deep_view() == checkout_at(worktrees.deep_view(), path@, rules),
{
    let ghost all = worktrees.deep_view();
    let mut i: usize = 0;
    assert(all.skip(0) =~= all);
    while i < worktrees.len()
        invariant
            i <= worktrees.len(),
            all == worktrees.deep_view(),
            checkout_at(all, path@, rules) == checkout_at(all.skip(i as int), path@, rules),
        decreases worktrees.len() - i,
    {
        proof {
            assert(all.skip(i as int)[0] == worktrees@[i as int].deep_view());
            assert(all.skip(i as int).drop_first() =~= all.skip(i + 1));
        }
        if equivalent(&PathBuf::new(worktrees[i].path.as_str()), path, rules) {
            return Some(&worktrees[i]);
        }
        i = i + 1;
    }
    assert(all.skip(i as int) =~= Seq::<WorktreeInfoV>::empty());
    None
}

fn finish_removal(removal: Removal, outcome: WorktreeRemovalOutcome) -> (next: Next)
    ensures
        next.deep_view() == removal_done(removal.deep_view(), outcome.deep_view()),
{
    Next::Done(
        Finished::Removal {
            repo_path: removal.repo_path,
            branch_name: removal.branch_name,
            worktree_path: removal.worktree_path,
            outcome,
        },
    )
}

fn remove_listed(removal: Removal, worktrees: &Vec<WorktreeInfo>) -> (next: Next)
    ensures
        next.deep_view() == after_listing(removal.deep_view(), worktrees.deep_view()),
{
    match find_checkout(worktrees, &removal.worktree_path, removal.path_rules) {
        Some(worktree) => match &worktree.open_workspace_id {
            Some(workspace_id) => {
                let call = Call::WorktreeRemove {
                    workspace_id: workspace_id.clone(),
                    force: removal.force,
                };
                Next::Ask(Operation::RemoveWorkspace(removal), call)
            },
            None => {
                let call = Call::RemoveCheckout {
                    repo_path: removal.repo_path.clone(),
                    worktree_path: removal.worktree_path.clone(),
                    force: removal.force,
                };
                Next::Ask(Operation::RemoveCheckout(removal), call)
            },
        },
        None => {
            let shown = display(&removal.worktree_path, removal.path_rules);
            let message = concat3(
                "could not confirm checkout state before removal because ",
                shown.as_str(),
                " was not returned by herdr",
            );
            finish_removal(removal, WorktreeRemovalOutcome::Failed(message))
        },
    }
}

fn open_failed(error: &HerdrError) -> (next: Next)
    ensures
        next.deep_view() == NextV::Done(FinishedV::OpenFailed(error.deep_view().text())),
{
    Next::Done(Finished::OpenFailed(error.to_text()))
}

/// How opening a repository begins.
pub open spec fn repo_opening(repo_path: Seq<u8>, on_open: OnOpenConfigV) -> NextV {
    NextV::Ask(
        OperationV::OpenRepo { on_open },
        CallV::WorktreeOpen {
            cwd: repo_path,
            target: WorktreeOpenTargetV::Path(repo_path),
            focus: true,
        },
    )
}

/// How opening a folder begins.
pub open spec fn folder_opening(target: Seq<u8>, path_rules: PathRules) -> NextV {
    NextV::Ask(OperationV::FindFolder { target, path_rules }, CallV::PaneList)
}

/// How opening a local branch begins.
pub open spec fn branch_opening(
    repo_path: Seq<u8>,
    branch_name: Seq<char>,
    has_worktree: bool,
    on_open: OnOpenConfigV,
) -> NextV {
    route_step(
        BranchOpeningV {
            repo_path,
            branch_name,
            route: if has_worktree {
                BranchOpenRoute::Open
            } else {
                BranchOpenRoute::Create
            },
            retried: false,
            tracking_created: None,
            on_open,
        },
    )
}

/// How opening a remote branch begins.
pub open spec fn remote_branch_opening(
    repo_path: Seq<u8>,
    branch_name: Seq<char>,
    remote: Seq<char>,
    on_open: OnOpenConfigV,
) -> NextV {
    NextV::Ask(
        OperationV::TrackRemote { repo_path, branch_name, on_open },
        CallV::CreateTrackingBranch { repo_path, branch: branch_name, remote },
    )
}

/// How creating a branch from a base begins.
pub open spec fn branch_creation(
    repo_path: Seq<u8>,
    branch_name: Seq<char>,
    base: Seq<char>,
    on_open: OnOpenConfigV,
) -> NextV {
    NextV::Ask(
        OperationV::CreateBranch { repo_path, on_open },
        CallV::WorktreeCreate(
            WorktreeCreateRequestV {
                cwd: repo_path,
                branch: branch_name,
                base: Some(base),
                path: None,
                focus: true,
            },
        ),
    )
}

/// How removing a checkout begins: without herdr it is not known whether the checkout is open,
/// so it stays.
pub open spec fn removal_begun(removal: RemovalV, inside_herdr: bool) -> NextV {
    if inside_herdr {
        NextV::Ask(
            OperationV::ListCheckouts(removal),
            CallV::WorktreeList { cwd: removal.repo_path },
        )
    } else {
        removal_done(
            removal,
            WorktreeRemovalOutcomeV::Failed(
                "could not determine fresh open checkout state because herdr is unavailable"@,
            ),
        )
    }
}

impl Operation {
    /// Opening a repository.
    pub fn open_repo(repo_path: PathBuf, on_open: OnOpenConfig) -> (next: Next)
        ensures
            next.deep_view() == repo_opening(repo_path@, on_open.deep_view()),
    {
        let target = WorktreeOpenTarget::Path(repo_path.clone());
        Next::Ask(
            Operation::OpenRepo { on_open },
            Call::WorktreeOpen { cwd: repo_path, target, focus: true },
        )
    }

    /// Opening a folder, given by its canonical path.
    pub fn open_folder(target: PathBuf, path_rules: PathRules) -> (next: Next)
        ensures
            next.deep_view() == folder_opening(target@, path_rules),
    {
        Next::Ask(Operation::FindFolder { target, path_rules }, Call::PaneList)
    }

    /// Opening a local branch.
    pub fn open_branch(
        repo_path: PathBuf,
        branch_name: String,
        has_worktree: bool,
        on_open: OnOpenConfig,
    ) -> (next: Next)
        ensures
            next.deep_view() == branch_opening(
                repo_path@,
                branch_name@,
                has_worktree,
                on_open.deep_view(),
            ),
    {
        ask_route(
            BranchOpening {
                repo_path,
                branch_name,
                route: if has_worktree {
                    BranchOpenRoute::Open
                } else {
                    BranchOpenRoute::Create
                },
                retried: false,
                tracking_created: None,
                on_open,
            },
        )
    }

    /// Opening a remote branch by a local one that tracks it.
    pub fn open_remote_branch(
        repo_path: PathBuf,
        branch_name: String,
        remote: String,
        on_open: OnOpenConfig,
    ) -> (next: Next)
        ensures
            next.deep_view() == remote_branch_opening(
                repo_path@,
                branch_name@,
                remote@,
                on_open.deep_view(),
            ),
    {
        let call = Call::CreateTrackingBranch {
            repo_path: repo_path.clone(),
            branch: branch_name.clone(),
            remote,
        };
        Next::Ask(Operation::TrackRemote { repo_path, branch_name, on_open }, call)
    }

    /// Creating a branch from a base.
    pub fn create_new_branch(
        repo_path: PathBuf,
        branch_name: String,
        base: String,
        on_open: OnOpenConfig,
    ) -> (next: Next)
        ensures
            next.deep_view() == branch_creation(
                repo_path@,
                branch_name@,
                base@,
                on_open.deep_view(),
            ),
    {
        let call = Call::WorktreeCreate(
            WorktreeCreateRequest {
                cwd: repo_path.clone(),
                branch: branch_name,
                base: Some(base),
                path: None,
                focus: true,
            },
        );
        Next::Ask(Operation::CreateBranch { repo_path, on_open }, call)
    }

    /// Removing a checkout. Without herdr it is not known whether the checkout is open, so
    /// it stays.
    pub fn remove_worktree(
        repo_path: PathBuf,
        branch_name: String,
        worktree_path: PathBuf,
        force: bool,
        inside_herdr: bool,
        path_rules: PathRules,
    ) -> (next: Next)
        ensures
            next.deep_view() == removal_begun(
                RemovalV {
                    repo_path: repo_path@,
                    branch_name: branch_name@,
                    worktree_path: worktree_path@,
                    force,
                    path_rules,
                },
                inside_herdr,
            ),
    {
        let cwd = repo_path.clone();
        let removal = Removal { repo_path, branch_name, worktree_path, force, path_rules };
        if inside_herdr {
            Next::Ask(Operation::ListCheckouts(removal), Call::WorktreeList { cwd })
        } else {
            finish_removal(
                removal,
                WorktreeRemovalOutcome::Failed(
                    owned(
                        "could not determine fresh open checkout state because herdr is unavailable",
                    ),
                ),
            )
        }
    }

    /// Goes on with the reply that the work waits for.
    pub fn resume(self, received: Reply) -> (next: Next)
        requires
            awaits(self.deep_view(), received),
            operation_wf(self.deep_view()),
        ensures
            next.deep_view() == next_step(self.deep_view(), received),
    {
        match (self, received) {
            (Operation::OpenRepo { on_open }, Reply::WorktreeOpen(result)) => match result {
                Ok(response) => {
                    let is_new = match response.already_open {
                        Some(already_open) => !already_open,
                        None => false,
                    };
                    open_workspace(on_open, response.opened, is_new, response.warning)
                },
                Err(error) => open_failed(&error),
            },
            (Operation::FindFolder { target, path_rules }, Reply::PaneList(result)) => match result {
                Ok(panes) => match find_pane(&panes, &target, path_rules) {
                    Some(pane) => Next::Ask(
                        Operation::FocusFolder,
                        Call::WorkspaceFocus { workspace_id: pane.workspace_id.clone() },
                    ),
                    None => Next::Ask(
                        Operation::CreateFolder,
                        Call::WorkspaceCreate { cwd: target, focus: true },
                    ),
                },
                Err(error) => open_failed(&error),
            },
            (Operation::FocusFolder, Reply::WorkspaceFocus(result)) => match result {
                Ok(_) => Next::Done(Finished::Opened { warning: None }),
                Err(error) => open_failed(&error),
            },
            (Operation::CreateFolder, Reply::WorkspaceCreate(result)) => match result {
                Ok(response) => Next::Done(Finished::Opened { warning: response.warning }),
                Err(error) => open_failed(&error),
            },
            (
                Operation::TrackRemote { repo_path, branch_name, on_open },
                Reply::CreateTrackingBranch(result),
            ) => {
                let created = match result {
                    Ok(_) => true,
                    Err(error) => {
                        if !is_local_branch_already_exists(&error) {
                            return fail_branch(repo_path, error.to_text());
                        }
                        false
                    },
                };
                ask_route(
                    BranchOpening {
                        repo_path,
                        branch_name,
                        route: BranchOpenRoute::Create,
                        retried: false,
                        tracking_created: Some(created),
                        on_open,
                    },
                )
            },
            (Operation::OpenBranch(opening), Reply::WorktreeOpen(result)) => match result {
                Ok(response) => {
                    let is_new = match response.already_open {
                        Some(already_open) => !already_open,
                        None => false,
                    };
                    open_workspace(opening.on_open, response.opened, is_new, response.warning)
                },
                Err(error) => fail_route(opening, error),
            },
            (Operation::OpenBranch(opening), Reply::WorktreeCreate(result)) => match result {
                Ok(response) => open_workspace(
                    opening.on_open,
                    response.opened,
                    true,
                    response.warning,
                ),
                Err(error) => fail_route(opening, error),
            },
            (Operation::RefreshRoute(opening, error), Reply::WorktreeList(result)) => {
                let refreshed = match result {
                    Ok(response) => find_route(
                        &response.worktrees,
                        opening.branch_name.as_str(),
                    ),
                    Err(_) => opening.route,
                };
                if refreshed != opening.route {
                    let mut opening = opening;
                    opening.route = refreshed;
                    opening.retried = true;
                    ask_route(opening)
                } else {
                    fail_opening(opening, error)
                }
            },
            (Operation::CreateBranch { repo_path, on_open }, Reply::WorktreeCreate(result)) =>
                match result {
                Ok(response) => open_workspace(on_open, response.opened, true, response.warning),
                Err(error) => fail_branch(repo_path, friendly_branch_error(&error)),
            },
            (Operation::SplitPane(setup), Reply::PaneSplit(result)) => {
                assert(setup.on_open.deep_view().panes.len() == setup.on_open.panes@.len());
                match result {
                    Ok(response) => {
                        let pane = &setup.on_open.panes[setup.index];
                        assert(setup.deep_view().on_open.panes[setup.index as int]
                            == pane.deep_view());
                        let call = Call::PaneRun {
                            pane_id: response.pane_id,
                            command: pane.command.clone(),
                        };
                        Next::Ask(Operation::RunPane(setup), call)
                    },
                    Err(error) => {
                        let _count: usize = setup.on_open.panes.len();
                        let problem = describe_pane_error(setup.index, " split failed: ", &error);
                        skip_pane(setup, Some(problem))
                    },
                }
            },
            (Operation::RunPane(setup), Reply::PaneRun(result)) => {
                assert(setup.on_open.deep_view().panes.len() == setup.on_open.panes@.len());
                match result {
                    Ok(_) => skip_pane(setup, None),
                    Err(error) => {
                        let _count: usize = setup.on_open.panes.len();
                        let problem = describe_pane_error(setup.index, " run failed: ", &error);
                        skip_pane(setup, Some(problem))
                    },
                }
            },
            (Operation::ListCheckouts(removal), Reply::WorktreeList(result)) => match result {
                Ok(response) => remove_listed(removal, &response.worktrees),
                Err(error) => {
                    let message = concat(
                        "could not refresh open checkout state before removal: ",
                        error.to_text().as_str(),
                    );
                    finish_removal(removal, WorktreeRemovalOutcome::Failed(message))
                },
            },
            (Operation::RemoveWorkspace(removal), Reply::WorktreeRemove(result)) => match result {
                Ok(response) => finish_removal(
                    removal,
                    WorktreeRemovalOutcome::Removed { warning: response.warning },
                ),
                Err(error) => {
                    let dirty = match &error {
                        HerdrError::DirtyWorktreeRequiresForce(_) => true,
                        _ => false,
                    };
                    let outcome = if dirty && !removal.force {
                        WorktreeRemovalOutcome::DirtyRequiresForce
                    } else {
                        WorktreeRemovalOutcome::Failed(friendly_branch_error(&error))
                    };
                    finish_removal(removal, outcome)
                },
            },
            (Operation::RemoveCheckout(removal), Reply::RemoveCheckout(result)) => match result {
                Ok(_) => {
                    let call = Call::PruneWorktrees { repo_path: removal.repo_path.clone() };
                    Next::Ask(Operation::Prune(removal), call)
                },
                Err(error) => {
                    let outcome = if is_dirty_worktree_requires_force(&error) && !removal.force {
                        WorktreeRemovalOutcome::DirtyRequiresForce
                    } else {
                        WorktreeRemovalOutcome::Failed(error.to_text())
                    };
                    finish_removal(removal, outcome)
                },
            },
            (Operation::Prune(removal), Reply::PruneWorktrees(result)) => {
                let warning = match result {
                    Ok(_) => None,
                    Err(error) => Some(
                        concat(
                            "checkout was removed, but git worktree prune failed: ",
                            error.to_text().as_str(),
                        ),
                    ),
                };
                finish_removal(removal, WorktreeRemovalOutcome::Removed { warning })
            },
            _ => open_failed(&HerdrError::InvalidResponse(String::new())),
        }
    }
}

/// Every reply to the call that is made is one that the work waits for.
pub proof fn lemma_calls_are_awaited(operation: OperationV, received: Reply, answer: Reply)
    requires
        awaits(operation, received),
        operation_wf(operation),
    ensures
        match next_step(operation, received) {
            NextV::Ask(waiting, call) => operation_wf(waiting) && (replies_to(call, answer)
                ==> awaits(waiting, answer)),
            NextV::Done(_) => true,
        },
{
}

/// How many calls are left at most.
pub open spec fn calls_left(operation: OperationV) -> int {
    match operation {
        OperationV::OpenRepo { on_open } => 2 * (on_open.panes.len() as int) + 1,
        OperationV::FindFolder { .. } => 2,
        OperationV::FocusFolder => 1,
        OperationV::CreateFolder => 1,
        OperationV::TrackRemote { on_open, .. } => 2 * (on_open.panes.len() as int) + 4,
        OperationV::OpenBranch(opening) => if opening.retried {
            2 * (opening.on_open.panes.len() as int) + 1
        } else {
            2 * (opening.on_open.panes.len() as int) + 3
        },
        OperationV::RefreshRoute(opening, _) => 2 * (opening.on_open.panes.len() as int) + 2,
        OperationV::CreateBranch { on_open, .. } => 2 * (on_open.panes.len() as int) + 1,
        OperationV::SplitPane(setup) => 2 * (setup.on_open.panes.len() - setup.index),
        OperationV::RunPane(setup) => 2 * (setup.on_open.panes.len() - setup.index) - 1,
        OperationV::ListCheckouts(_) => 3,
        OperationV::RemoveWorkspace(_) => 1,
        OperationV::RemoveCheckout(_) => 2,
        OperationV::Prune(_) => 1,
    }
}

/// Work comes to its end, whatever the replies are.
pub proof fn lemma_work_ends(operation: OperationV, received: Reply)
    requires
        awaits(operation, received),
        operation_wf(operation),
    ensures
        match next_step(operation, received) {
            NextV::Ask(waiting, _) => 0 < calls_left(waiting) < calls_left(operation),
            NextV::Done(_) => true,
        },
{
}

/// A branch is tried by the other route at most once.
pub proof fn lemma_route_is_retried_once(opening: BranchOpeningV, received: Reply)
    requires
        opening.retried,
        awaits(OperationV::OpenBranch(opening), received),
    ensures
        match next_step(OperationV::OpenBranch(opening), received) {
            NextV::Ask(waiting, _) => waiting is SplitPane,
            NextV::Done(_) => true,
        },
{
}

/// A checkout is removed by git only where herdr has just said that no workspace shows it.
pub proof fn lemma_git_removes_closed_checkouts(
    operation: OperationV,
    received: Reply,
    waiting: OperationV,
    call: CallV,
)
    requires
        awaits(operation, received),
        operation_wf(operation),
        next_step(operation, received) == NextV::Ask(waiting, call),
        call is RemoveCheckout,
    ensures
        operation is ListCheckouts,
        received matches Reply::WorktreeList(Ok(response)) && ({
            let found = checkout_at(
                response.deep_view().worktrees,
                operation->ListCheckouts_0.worktree_path,
                operation->ListCheckouts_0.path_rules,
            );
            found is Some && found->0.open_workspace_id is None
        }),
{
}

/// Changes in a checkout ask for force only where force was not used.
pub proof fn lemma_forced_removal_is_final(operation: OperationV, received: Reply)
    requires
        awaits(operation, received),
        operation is RemoveWorkspace || operation is RemoveCheckout,
        match operation {
            OperationV::RemoveWorkspace(removal) => removal.force,
            OperationV::RemoveCheckout(removal) => removal.force,
            _ => false,
        },
    ensures
        match next_step(operation, received) {
            NextV::Done(FinishedV::Removal { outcome, .. }) => !(outcome is DirtyRequiresForce),
            _ => true,
        },
{
}

/// What goes wrong with the panes of an open workspace is a warning: the workspace stays
/// open.
pub proof fn lemma_pane_failures_keep_the_opening(operation: OperationV, received: Reply)
    requires
        awaits(operation, received),
        operation is SplitPane || operation is RunPane,
    ensures
        match next_step(operation, received) {
            NextV::Ask(waiting, _) => waiting is SplitPane || waiting is RunPane,
            NextV::Done(finished) => finished is Opened,
        },
{
}

/// Only a new workspace gets its panes: one that was open already, or that herdr says
/// nothing more about, is left as it is.
pub proof fn lemma_open_workspaces_keep_their_panes(
    operation: OperationV,
    result: Result<WorktreeOpenResponse, HerdrError>,
)
    requires
        operation is OpenRepo || operation is OpenBranch,
        result matches Ok(response) && response.already_open != Some(false),
    ensures
        next_step(operation, Reply::WorktreeOpen(result)) is Done,
{
}

/// Where the tracking branch could not be made, nothing else is tried. Where the branch is
/// there already, the work goes on as if it had been made.
pub proof fn lemma_checkout_needs_its_branch(
    operation: OperationV,
    result: Result<(), GitError>,
)
    requires
        operation is TrackRemote,
    ensures
        match next_step(operation, Reply::CreateTrackingBranch(result)) {
            NextV::Ask(waiting, call) => waiting is OpenBranch && call is WorktreeCreate && (
            result is Ok || result->Err_0 is LocalBranchAlreadyExists),
            NextV::Done(finished) => finished is BranchFailed && result is Err && !(
            result->Err_0 is LocalBranchAlreadyExists),
        },
{
}

/// A checkout whose state herdr cannot tell is not removed.
pub proof fn lemma_unknown_checkouts_stay(
    removal: RemovalV,
    result: Result<WorktreeListResponse, HerdrError>,
)
    requires
        result matches Ok(response) ==> checkout_at(
            response.deep_view().worktrees,
            removal.worktree_path,
            removal.path_rules,
        ) is None,
    ensures
        match next_step(OperationV::ListCheckouts(removal), Reply::WorktreeList(result)) {
            NextV::Done(FinishedV::Removal { outcome, .. }) => outcome is Failed,
            _ => false,
        },
{
}

/// A checkout counts as removed only where herdr or git has removed it; a prune that fails
/// afterwards changes nothing of that.
pub proof fn lemma_removed_means_removed(operation: OperationV, received: Reply)
    requires
        awaits(operation, received),
    ensures
        next_step(operation, received) matches NextV::Done(
            FinishedV::Removal { outcome, .. },
        ) ==> (outcome is Removed <==> (operation is Prune || received matches Reply::WorktreeRemove(
            Ok(_),
        ))),
        next_step(operation, received) matches NextV::Ask(waiting, _) ==> (waiting is Prune <==>
            received matches Reply::RemoveCheckout(Ok(_))),
{
}

/// Events on their way to the picker. Nothing is sent after a cancellation, nor to a picker
/// that is gone.
#[derive(Debug, PartialEq, Eq)]
pub struct EventSender {
    pub queue: Vec<AppEvent>,
    pub cancelled: bool,
    pub closed: bool,
}

impl EventSender {
    pub fn new() -> (sender: EventSender)
        ensures
            sender.queue@.len() == 0,
            !sender.cancelled,
            !sender.closed,
    {
        EventSender { queue: Vec::new(), cancelled: false, closed: false }
    }

    /// Sends an event. `false` where it does not arrive.
    pub fn send(&mut self, event: AppEvent) -> (sent: bool)
        ensures
            sent == (!old(self).cancelled && !old(self).closed),
            final(self).queue@ == if sent {
                old(self).queue@.push(event)
            } else {
                old(self).queue@
            },
            final(self).cancelled == old(self).cancelled,
            final(self).closed == old(self).closed,
    {
        if self.cancelled || self.closed {
            return false;
        }
        self.queue.push(event);
        true
    }

    pub fn is_cancelled(&self) -> (answer: bool)
        ensures
            answer == self.cancelled,
    {
        self.cancelled
    }

    pub fn cancel(&mut self)
        ensures
            final(self).cancelled,
            final(self).queue == old(self).queue,
            final(self).closed == old(self).closed,
    {
        self.cancelled = true;
    }

    /// Takes in that the picker is gone.
    pub fn close(&mut self)
        ensures
            final(self).closed,
            final(self).queue == old(self).queue,
            final(self).cancelled == old(self).cancelled,
    {
        self.closed = true;
    }

    /// The event that was sent first.
    pub fn receive(&mut self) -> (event: Option<AppEvent>)
        ensures
            match event {
                Some(event) => old(self).queue@.len() > 0 && event == old(self).queue@[0]
                    && final(self).queue@ == old(self).queue@.drop_first(),
                None => old(self).queue@.len() == 0 && final(self).queue == old(self).queue,
            },
            final(self).cancelled == old(self).cancelled,
            final(self).closed == old(self).closed,
    {
        if self.queue.len() == 0 {
            return None;
        }
        let event = self.queue.remove(0);
        assert(self.queue@ =~= old(self).queue@.drop_first());
        Some(event)
    }
}

/// A remote of a repository that is being fetched.
#[derive(Debug, PartialEq, Eq)]
pub struct FetchKey {
    pub repo_path: PathBuf,
    pub remote: String,
}

#[verifier::ext_equal]
pub struct FetchKeyV {
    pub repo_path: Seq<u8>,
    pub remote: Seq<char>,
}

impl DeepView for FetchKey {
    type V = FetchKeyV;

    open spec fn deep_view(&self) -> FetchKeyV {
        FetchKeyV { repo_path: self.repo_path@, remote: self.remote@ }
    }
}

pub open spec fn same_fetch(left: FetchKeyV, right: FetchKeyV, rules: PathRules) -> bool {
    same_path(left.repo_path, right.repo_path, rules) && left.remote == right.remote
}

pub open spec fn is_fetching(keys: Seq<FetchKeyV>, key: FetchKeyV, rules: PathRules) -> bool {
    exists|i: int| 0 <= i < keys.len() && same_fetch(#[trigger] keys[i], key, rules)
}

/// No remote is fetched twice at a time.
pub open spec fn fetches_distinct(keys: Seq<FetchKeyV>, rules: PathRules) -> bool {
    forall|i: int, j: int|
        0 <= i < j < keys.len() ==> !same_fetch(#[trigger] keys[i], #[trigger] keys[j], rules)
}

/// The fetches but one.
pub open spec fn without_fetch(keys: Seq<FetchKeyV>, key: FetchKeyV, rules: PathRules) -> Seq<FetchKeyV>
    decreases keys.len(),
{
    if keys.len() == 0 {
        keys
    } else {
        let before = without_fetch(keys.drop_last(), key, rules);
        if same_fetch(keys.last(), key, rules) {
            before
        } else {
            before.push(keys.last())
        }
    }
}

/// The remotes that are being fetched.
#[derive(Debug, PartialEq, Eq)]
pub struct FetchDeduplicator {
    pub in_flight: Vec<FetchKey>,
}

impl DeepView for FetchDeduplicator {
    type V = Seq<FetchKeyV>;

    open spec fn deep_view(&self) -> Seq<FetchKeyV> {
        self.in_flight.deep_view()
    }
}

impl Default for FetchDeduplicator {
    fn default() -> (fetches: Self)
        ensures
            fetches.deep_view() == Seq::<FetchKeyV>::empty(),
    {
        let fetches = FetchDeduplicator { in_flight: Vec::new() };
        assert(fetches.in_flight.deep_view() =~= Seq::<FetchKeyV>::empty());
        fetches
    }
}

/// The remotes of a repository that are claimed, and the fetches with them.
pub open spec fn claimed(keys: Seq<FetchKeyV>, repo_path: Seq<u8>, remotes: Seq<Seq<char>>, rules: PathRules) -> (
    Seq<FetchKeyV>,
    Seq<Seq<char>>,
)
    decreases remotes.len(),
{
    if remotes.len() == 0 {
        (keys, Seq::empty())
    } else {
        let (before, taken) = claimed(keys, repo_path, remotes.drop_last(), rules);
        let key = FetchKeyV { repo_path, remote: remotes.last() };
        if is_fetching(before, key, rules) {
            (before, taken)
        } else {
            (before.push(key), taken.push(remotes.last()))
        }
    }
}

impl FetchDeduplicator {
    fn is_in_flight(&self, repo_path: &PathBuf, remote: &str, rules: PathRules) -> (answer: bool)
        ensures
            answer == is_fetching(
                self.deep_view(),
                FetchKeyV { repo_path: repo_path@, remote: remote@ },
                rules,
            ),
    {
        let ghost key = FetchKeyV { repo_path: repo_path@, remote: remote@ };
        let mut i: usize = 0;
        while i < self.in_flight.len()
            invariant
                i <= self.in_flight.len(),
                key == (FetchKeyV { repo_path: repo_path@, remote: remote@ }),
                forall|k: int|
                    0 <= k < i ==> !same_fetch(#[trigger] self.in_flight.deep_view()[k], key, rules),
            decreases self.in_flight.len() - i,
        {
            if equal_paths(&self.in_flight[i].repo_path, repo_path, rules) && same_text(
                self.in_flight[i].remote.as_str(),
                remote,
            ) {
                assert(same_fetch(self.in_flight.deep_view()[i as int], key, rules));
                return true;
            }
            i = i + 1;
        }
        false
    }

    /// Claims a remote. `false` where it is being fetched.
    pub fn claim(&mut self, repo_path: &PathBuf, remote: &str, rules: PathRules) -> (taken: bool)
        ensures
            ({
                let key = FetchKeyV { repo_path: repo_path@, remote: remote@ };
                &&& taken == !is_fetching(old(self).deep_view(), key, rules)
                &&& final(self).deep_view() == if taken {
                    old(self).deep_view().push(key)
                } else {
                    old(self).deep_view()
                }
            }),
            fetches_distinct(old(self).deep_view(), rules) ==> fetches_distinct(final(self).deep_view(), rules),
    {
        let ghost start = self.deep_view();
        if self.is_in_flight(repo_path, remote, rules) {
            return false;
        }
        let key = FetchKey { repo_path: repo_path.clone(), remote: owned(remote) };
        let ghost added = key.deep_view();
        self.in_flight.push(key);
        assert(self.in_flight.deep_view() =~= start.push(added));
        true
    }

    /// Claims those of the remotes that are not being fetched.
    #[verifier::loop_isolation(false)]
    pub fn claim_all(&mut self, repo_path: &PathBuf, remotes: &Vec<String>, rules: PathRules) -> (taken: Vec<String>)
        ensures
            (final(self).deep_view(), taken.deep_view()) == claimed(
                old(self).deep_view(),
                repo_path@,
                remotes.deep_view(),
                rules,
            ),
    {
        let ghost start = self.deep_view();
        let ghost all = remotes.deep_view();
        let mut taken: Vec<String> = Vec::new();
        let mut i: usize = 0;
        assert(all.take(0) =~= Seq::<Seq<char>>::empty());
        assert(taken.deep_view() =~= Seq::<Seq<char>>::empty());
        while i < remotes.len()
            invariant
                i <= remotes.len(),
                (self.deep_view(), taken.deep_view()) == claimed(
                    start,
                    repo_path@,
                    all.take(i as int),
                    rules,
                ),
            decreases remotes.len() - i,
        {
            let ghost before = taken.deep_view();
            proof {
                assert(all.take(i + 1).drop_last() =~= all.take(i as int));
                assert(all.take(i + 1).last() == remotes@[i as int]@);
            }
            if self.claim(repo_path, remotes[i].as_str(), rules) {
                let name = remotes[i].clone();
                let ghost added = name@;
                taken.push(name);
                assert(taken.deep_view() =~= before.push(added));
            }
            i = i + 1;
        }
        assert(all.take(all.len() as int) =~= all);
        taken
    }

    /// Gives a claim back.
    #[verifier::loop_isolation(false)]
    pub fn release(&mut self, repo_path: &PathBuf, remote: &str, rules: PathRules)
        ensures
            final(self).deep_view() == without_fetch(
                old(self).deep_view(),
                FetchKeyV { repo_path: repo_path@, remote: remote@ },
                rules,
            ),
    {
        let ghost all = self.deep_view();
        let ghost key = FetchKeyV { repo_path: repo_path@, remote: remote@ };
        let mut kept: Vec<FetchKey> = Vec::new();
        let mut i: usize = 0;
        assert(kept.deep_view() =~= without_fetch(all.take(0), key, rules));
        while i < self.in_flight.len()
            invariant
                i <= self.in_flight.len(),
                self.deep_view() == all,
                kept.deep_view() == without_fetch(all.take(i as int), key, rules),
            decreases self.in_flight.len() - i,
        {
            let ghost before = kept.deep_view();
            proof {
                assert(all.take(i + 1).drop_last() =~= all.take(i as int));
                assert(all[i as int] == self.in_flight@[i as int].deep_view());
            }
            if !(equal_paths(&self.in_flight[i].repo_path, repo_path, rules) && same_text(
                self.in_flight[i].remote.as_str(),
                remote,
            )) {
                let other = FetchKey {
                    repo_path: self.in_flight[i].repo_path.clone(),
                    remote: self.in_flight[i].remote.clone(),
                };
                let ghost added = other.deep_view();
                kept.push(other);
                assert(kept.deep_view() =~= before.push(added));
            }
            i = i + 1;
        }
        assert(all.take(all.len() as int) =~= all);
        self.in_flight = kept;
    }
}

/// Claiming keeps the fetches distinct: a remote that is being fetched is not fetched again.
pub proof fn lemma_claims_stay_distinct(
    keys: Seq<FetchKeyV>,
    repo_path: Seq<u8>,
    remotes: Seq<Seq<char>>,
    rules: PathRules,
)
    requires
        fetches_distinct(keys, rules),
    ensures
        fetches_distinct(claimed(keys, repo_path, remotes, rules).0, rules),
    decreases remotes.len(),
{
    if remotes.len() > 0 {
        lemma_claims_stay_distinct(keys, repo_path, remotes.drop_last(), rules);
    }
}

/// A remote whose claim was given back can be claimed again.
pub proof fn lemma_released_fetch_is_free(keys: Seq<FetchKeyV>, key: FetchKeyV, rules: PathRules)
    ensures
        !is_fetching(without_fetch(keys, key, rules), key, rules),
    decreases keys.len(),
{
    if keys.len() > 0 {
        lemma_released_fetch_is_free(keys.drop_last(), key, rules);
        let before = without_fetch(keys.drop_last(), key, rules);
        let after = without_fetch(keys, key, rules);
        assert forall|i: int| 0 <= i < after.len() implies !same_fetch(#[trigger] after[i], key, rules) by {
            if i < before.len() {
                assert(after[i] == before[i]);
            }
        }
    }
}

/// How many remotes are still being fetched for one visit.
#[derive(Debug, Clone, Copy, PartialEq, Eq, Structural)]
pub struct FetchBatch {
    pub remaining: usize,
}

impl FetchBatch {
    /// Takes in that one remote is done. `true` for the last one.
    pub fn finish_one(&mut self) -> (is_final: bool)
        requires
            old(self).remaining > 0,
        ensures
            (final(self).remaining as int, is_final) == after_finish(old(self).remaining as int),
    {
        self.remaining = self.remaining - 1;
        self.remaining == 0
    }
}

/// A batch after one more remote is done, and whether that was the last one.
pub open spec fn after_finish(remaining: int) -> (int, bool) {
    (remaining - 1, remaining - 1 == 0)
}

/// What the remotes of a batch answer one after the other, as to whether each was the last.
pub open spec fn final_answers(remaining: int) -> Seq<bool>
    decreases remaining,
{
    if remaining <= 0 {
        Seq::empty()
    } else {
        let (left, is_final) = after_finish(remaining);
        seq![is_final] + final_answers(left)
    }
}

/// Of the answers of a batch exactly one is final, the last.
pub proof fn lemma_one_answer_is_final(remaining: int)
    requires
        remaining > 0,
    ensures
        final_answers(remaining).len() == remaining,
        forall|k: int|
            0 <= k < remaining ==> #[trigger] final_answers(remaining)[k] == (k == remaining - 1),
    decreases remaining,
{
    reveal_with_fuel(final_answers, 2);
    if remaining > 1 {
        lemma_one_answer_is_final(remaining - 1);
        assert forall|k: int| 0 <= k < remaining implies #[trigger] final_answers(remaining)[k] == (
        k == remaining - 1) by {
            if k > 0 {
                assert(final_answers(remaining)[k] == final_answers(remaining - 1)[k - 1]);
            }
        }
    }
}

/// How the fetch of a remote went.
#[derive(Debug, PartialEq, Eq)]
pub enum FetchResult {
    /// The picker was cancelled before.
    Cancelled,
    Failed(String),
    /// The remote was fetched, but its branches could not be listed.
    Unlisted(String),
    Fetched(Listed<String>),
}

/// The event that tells how the fetch of a remote went.
pub fn fetch_event(
    repo_path: PathBuf,
    generation: u64,
    remote: String,
    local_names: &Vec<String>,
    result: FetchResult,
    is_final: bool,
) -> (event: AppEvent)
    ensures
        match event {
            AppEvent::GitFetchCompleted {
                remote: told,
                branches,
                repo_path: of,
                generation: visit,
                error,
                is_final: last,
                skipped_unsupported_refs,
            } => {
                &&& told == Some(remote)
                &&& of == repo_path
                &&& visit == generation
                &&& last == is_final
                &&& branches.deep_view() == match result {
                    FetchResult::Fetched(listed) => remote_entries(
                        remote@,
                        listed.items.deep_view(),
                        local_names.deep_view(),
                    ),
                    _ => Seq::empty(),
                }
                &&& error.deep_view() == match result {
                    FetchResult::Failed(message) => Some(message@),
                    FetchResult::Unlisted(message) => Some(
                        "fetch succeeded but branches could not be refreshed: "@ + message@,
                    ),
                    _ => None,
                }
                &&& skipped_unsupported_refs == match result {
                    FetchResult::Fetched(listed) => listed.skipped_unsupported_refs,
                    _ => false,
                }
            },
            _ => false,
        },
{
    let mut branches: Vec<BranchEntry> = Vec::new();
    let mut error: Option<String> = None;
    let mut skipped = false;
    assert(branches.deep_view() =~= Seq::<crate::branches::BranchEntryV>::empty());
    match result {
        FetchResult::Cancelled => {},
        FetchResult::Failed(message) => {
            error = Some(message);
        },
        FetchResult::Unlisted(message) => {
            error = Some(
                concat(
                    "fetch succeeded but branches could not be refreshed: ",
                    message.as_str(),
                ),
            );
        },
        FetchResult::Fetched(listed) => {
            let names: &[String] = listed.items.as_slice();
            let taken: &[String] = local_names.as_slice();
            assert(names.deep_view() =~= listed.items.deep_view());
            assert(taken.deep_view() =~= local_names.deep_view());
            branches = BranchEntry::build_remote(remote.as_str(), names, taken);
            skipped = listed.skipped_unsupported_refs;
        },
    }
    AppEvent::GitFetchCompleted {
        remote: Some(remote),
        branches,
        repo_path,
        generation,
        error,
        is_final,
        skipped_unsupported_refs: skipped,
    }
}

/// The event that ends a fetch which fetches nothing: there are no remotes to fetch, or they
/// could not be listed.
pub fn fetch_over(repo_path: PathBuf, generation: u64, error: Option<&str>) -> (event: AppEvent)
    ensures
        match event {
            AppEvent::GitFetchCompleted {
                remote,
                branches,
                repo_path: of,
                generation: visit,
                error: told,
                is_final,
                skipped_unsupported_refs,
            } => {
                &&& remote is None
                &&& branches@.len() == 0
                &&& of == repo_path
                &&& visit == generation
                &&& told.deep_view() == match error {
                    Some(message) => Some("could not list remotes for fetch: "@ + message@),
                    None => None,
                }
                &&& is_final
                &&& !skipped_unsupported_refs
            },
            _ => false,
        },
{
    AppEvent::GitFetchCompleted {
        remote: None,
        branches: Vec::new(),
        repo_path,
        generation,
        error: match error {
            Some(message) => Some(concat("could not list remotes for fetch: ", message)),
            None => None,
        },
        is_final: true,
        skipped_unsupported_refs: false,
    }
}

/// The event that brings the branches of a repository.
pub fn branches_event(
    repo: Repo,
    cwd: Option<&PathBuf>,
    generation: u64,
    names: Listed<String>,
    default_branch: Option<&str>,
    worktrees: Listed<Worktree>,
    path_rules: PathRules,
) -> (event: AppEvent)
    ensures
        match event {
            AppEvent::BranchesLoaded {
                repo_path,
                generation: visit,
                branches,
                worktrees: listed,
                skipped_unsupported_refs,
            } => {
                &&& repo_path@ == repo.path@
                &&& visit == generation
                &&& branches.deep_view() == sorted_branches(
                    local_entries(
                        worktrees.items.deep_view(),
                        names.items.deep_view(),
                        default_branch.deep_view(),
                        cwd.deep_view(),
                        path_rules,
                    ),
                )
                &&& listed == worktrees.items
                &&& skipped_unsupported_refs == (names.skipped_unsupported_refs
                    || worktrees.skipped_unsupported_refs)
            },
            _ => false,
        },
{
    let mut repo = repo;
    repo.worktrees = worktrees.items;
    let listed: &[String] = names.items.as_slice();
    assert(listed.deep_view() =~= names.items.deep_view());
    let branches = BranchEntry::build_local(&repo, listed, default_branch, cwd, path_rules);
    AppEvent::BranchesLoaded {
        repo_path: repo.path,
        generation,
        branches,
        worktrees: repo.worktrees,
        skipped_unsupported_refs: names.skipped_unsupported_refs
            || worktrees.skipped_unsupported_refs,
    }
}

pub fn branches_failed(repo_path: PathBuf, generation: u64, error: &str) -> (event: AppEvent)
    ensures
        match event {
            AppEvent::BranchLoadFailed { repo_path: of, generation: visit, message } => of
                == repo_path && visit == generation && message@ == "could not load branches: "@
                + error@,
            _ => false,
        },
{
    AppEvent::BranchLoadFailed {
        repo_path,
        generation,
        message: concat("could not load branches: ", error),
    }
}

/// The event that brings the known branches of a remote.
pub fn remote_branches_event(
    repo_path: PathBuf,
    generation: u64,
    remote: String,
    local_names: &Vec<String>,
    listed: Result<Listed<String>, String>,
) -> (event: AppEvent)
    ensures
        match (event, listed) {
            (
                AppEvent::RemoteBranchesLoaded {
                    repo_path: of,
                    generation: visit,
                    remote: told,
                    branches,
                    skipped_unsupported_refs,
                },
                Ok(names),
            ) => {
                &&& of == repo_path
                &&& visit == generation
                &&& told == remote
                &&& branches.deep_view() == remote_entries(
                    remote@,
                    names.items.deep_view(),
                    local_names.deep_view(),
                )
                &&& skipped_unsupported_refs == names.skipped_unsupported_refs
            },
            (
                AppEvent::RemoteBranchLoadFailed { repo_path: of, generation: visit, message },
                Err(error),
            ) => of == repo_path && visit == generation && message@
                == "could not list branches for remote "@ + remote@ + ": "@ + error@,
            _ => false,
        },
{
    match listed {
        Ok(names) => {
            let found: &[String] = names.items.as_slice();
            let taken: &[String] = local_names.as_slice();
            assert(found.deep_view() =~= names.items.deep_view());
            assert(taken.deep_view() =~= local_names.deep_view());
            let branches = BranchEntry::build_remote(remote.as_str(), found, taken);
            AppEvent::RemoteBranchesLoaded {
                repo_path,
                generation,
                remote,
                branches,
                skipped_unsupported_refs: names.skipped_unsupported_refs,
            }
        },
        Err(error) => {
            let head = concat3("could not list branches for remote ", remote.as_str(), ": ");
            AppEvent::RemoteBranchLoadFailed {
                repo_path,
                generation,
                message: concat(head.as_str(), error.as_str()),
            }
        },
    }
}

pub fn remotes_failed(repo_path: PathBuf, generation: u64, error: &str) -> (event: AppEvent)
    ensures
        match event {
            AppEvent::RemoteBranchLoadFailed { repo_path: of, generation: visit, message } => of
                == repo_path && visit == generation && message@
                == "could not list remote branches: "@ + error@,
            _ => false,
        },
{
    AppEvent::RemoteBranchLoadFailed {
        repo_path,
        generation,
        message: concat("could not list remote branches: ", error),
    }
}

/// The event that brings the open checkouts of a repository.
pub fn open_worktrees_event(
    repo_path: PathBuf,
    generation: u64,
    listed: Result<WorktreeListResponse, HerdrError>,
) -> (event: AppEvent)
    ensures
        match (event, listed) {
            (
                AppEvent::OpenWorktreesLoaded { repo_path: of, generation: visit, worktrees },
                Ok(response),
            ) => of == repo_path && visit == generation && worktrees == response.worktrees,
            (
                AppEvent::OpenWorktreesFailed { repo_path: of, generation: visit, message },
                Err(error),
            ) => of == repo_path && visit == generation && message@
                == "could not load open branch indicators: "@ + error.deep_view().text(),
            _ => false,
        },
{
    match listed {
        Ok(response) => AppEvent::OpenWorktreesLoaded {
            repo_path,
            generation,
            worktrees: response.worktrees,
        },
        Err(error) => AppEvent::OpenWorktreesFailed {
            repo_path,
            generation,
            message: concat(
                "could not load open branch indicators: ",
                error.to_text().as_str(),
            ),
        },
    }
}

/// The event that brings the open workspaces.
pub fn workspaces_event(listed: Result<Vec<WorkspaceInfo>, HerdrError>) -> (event: AppEvent)
    ensures
        match (event, listed) {
            (AppEvent::OpenWorkspacesLoaded { workspaces }, Ok(found)) => workspaces == found,
            (AppEvent::OpenWorkspacesFailed(message), Err(error)) => message@
                == "could not load open workspace indicators: "@ + error.deep_view().text(),
            _ => false,
        },
{
    match listed {
        Ok(workspaces) => AppEvent::OpenWorkspacesLoaded { workspaces },
        Err(error) => AppEvent::OpenWorkspacesFailed(
            concat("could not load open workspace indicators: ", error.to_text().as_str()),
        ),
    }
}

/// The event that brings the open panes.
pub fn panes_event(listed: Result<Vec<PaneInfo>, HerdrError>) -> (event: AppEvent)
    ensures
        match (event, listed) {
            (AppEvent::OpenFolderPanesLoaded { panes }, Ok(found)) => panes == found,
            (AppEvent::OpenFolderPanesFailed(message), Err(error)) => message@
                == "could not load open folder indicators: "@ + error.deep_view().text(),
            _ => false,
        },
{
    match listed {
        Ok(panes) => AppEvent::OpenFolderPanesLoaded { panes },
        Err(error) => AppEvent::OpenFolderPanesFailed(
            concat("could not load open folder indicators: ", error.to_text().as_str()),
        ),
    }
}

/// The event that tells whether a branch name is valid.
pub fn validation_event(repo_path: PathBuf, branch_name: String, result: Result<bool, String>) -> (
    event: AppEvent)
    ensures
        match event {
            AppEvent::BranchNameValidated { repo_path: of, branch_name: name, valid, error } => {
                &&& of == repo_path
                &&& name == branch_name
                &&& valid == (result == Ok::<bool, String>(true))
                &&& error.deep_view() == match result {
                    Ok(_) => None,
                    Err(message) => Some("could not validate branch name: "@ + message@),
                }
            },
            _ => false,
        },
{
    match result {
        Ok(valid) => AppEvent::BranchNameValidated { repo_path, branch_name, valid, error: None },
        Err(message) => AppEvent::BranchNameValidated {
            repo_path,
            branch_name,
            valid: false,
            error: Some(concat("could not validate branch name: ", message.as_str())),
        },
    }
}

/// The event that tells that a directory could not be scanned.
pub fn scan_failed(path: PathBuf, error: &str) -> (event: AppEvent)
    ensures
        match event {
            AppEvent::ScanWarning(warning) => warning.path == path && warning.message@
                == "repository scan failed: "@ + error@,
            _ => false,
        },
{
    AppEvent::ScanWarning(
        ScanWarning { path, message: concat("repository scan failed: ", error) },
    )
}

} // verus!
