//! The state of the picker.

pub use crate::branches::{BranchEntry, BranchId};
pub use crate::collisions::collision_disambiguators;
pub use crate::input::{SearchableList, TextInput};
pub use crate::screens::branch::{BranchContext, OpenWorktreeLoadState};
pub use crate::screens::delete::{DeleteFlowState, DeleteWorktreeTarget};
pub use crate::screens::new_branch::{BaseBranchSelection, NewBranchRoute};
pub use crate::screens::repo::RepoEntry;
pub use crate::toasts::{Toast, ToastKind};

use crate::config::{OnOpenConfig, OnOpenConfigV, SortOrder};
use crate::input::SearchableListV;
use crate::path::{PathBuf, PathRules};
use crate::pins::PinStore;
use crate::recency::{RecencyKeyV, RecencyStore};
use crate::screens::branch::{BranchContextV, BranchViewState, BranchViewV};
use crate::pending_delete::{clear, cleared, mark, marked, PendingWorktreeDelete};
use crate::screens::delete::{reconcile_pending, selected_target, target_of, target_view, DeleteFlowV, DeleteState, DeleteStateV};
use crate::screens::new_branch::{route, route_of, route_view, BaseBranchSelectionV, NewBranchState};
use crate::screens::repo::{sort_entries, RepoViewState, RepoViewV};
use crate::text::concat3;
use crate::toasts::{dismiss, push_scan_warning, push_toast_with_category, with_scan_warning, with_toast, ToastCategory, ToastV};
use vstd::prelude::*;
use vstd::string::*;

verus! {

/// One binding in the help.
#[derive(Debug, PartialEq, Eq)]
pub struct HelpBindingRow {
    pub section_name: &'static str,
    pub key_display: String,
    pub command_name: &'static str,
    pub description: &'static str,
}

#[verifier::ext_equal]
pub struct HelpBindingRowV {
    pub section_name: Seq<char>,
    pub key_display: Seq<char>,
    pub command_name: Seq<char>,
    pub description: Seq<char>,
}

impl DeepView for HelpBindingRow {
    type V = HelpBindingRowV;

    open spec fn deep_view(&self) -> HelpBindingRowV {
        HelpBindingRowV {
            section_name: self.section_name@,
            key_display: self.key_display@,
            command_name: self.command_name@,
            description: self.description@,
        }
    }
}

impl HelpBindingRowV {
    pub open spec fn searched(self) -> Seq<char> {
        self.key_display + " "@ + self.command_name + " "@ + self.description
    }
}

impl HelpBindingRow {
    /// What a search in the help looks at.
    pub fn search_text(&self) -> (text: String)
        ensures
            text@ == self.deep_view().searched(),
    {
        let head = concat3(self.key_display.as_str(), " ", self.command_name);
        concat3(head.as_str(), " ", self.description)
    }
}

#[derive(Debug, PartialEq, Eq)]
pub struct HelpOverlayState {
    pub rows: Vec<HelpBindingRow>,
    pub list: SearchableList,
}

#[verifier::ext_equal]
pub struct HelpOverlayV {
    pub rows: Seq<HelpBindingRowV>,
    pub list: SearchableListV,
}

impl DeepView for HelpOverlayState {
    type V = HelpOverlayV;

    open spec fn deep_view(&self) -> HelpOverlayV {
        HelpOverlayV { rows: self.rows.deep_view(), list: self.list.deep_view() }
    }
}

/// Which screen is shown.
#[derive(Debug, PartialEq, Eq)]
pub enum Mode {
    RepoSelect,
    BranchSelect(BranchContext),
    ValidatingNewBranch { context: BranchContext, name: String },
    SelectBaseBranch { context: BranchContext, flow: BaseBranchSelection },
    ConfirmWorktreeDelete(DeleteFlowState),
    Loading { message: String, branch: Option<BranchContext> },
}

#[verifier::ext_equal]
pub enum ModeV {
    RepoSelect,
    BranchSelect(BranchContextV),
    ValidatingNewBranch { context: BranchContextV, name: Seq<char> },
    SelectBaseBranch { context: BranchContextV, flow: BaseBranchSelectionV },
    ConfirmWorktreeDelete(DeleteFlowV),
    Loading { message: Seq<char>, branch: Option<BranchContextV> },
}

impl DeepView for Mode {
    type V = ModeV;

    open spec fn deep_view(&self) -> ModeV {
        match self {
            Mode::RepoSelect => ModeV::RepoSelect,
            Mode::BranchSelect(context) => ModeV::BranchSelect(context.deep_view()),
            Mode::ValidatingNewBranch { context, name } => ModeV::ValidatingNewBranch {
                context: context.deep_view(),
                name: name@,
            },
            Mode::SelectBaseBranch { context, flow } => ModeV::SelectBaseBranch {
                context: context.deep_view(),
                flow: flow.deep_view(),
            },
            Mode::ConfirmWorktreeDelete(flow) => ModeV::ConfirmWorktreeDelete(flow.deep_view()),
            Mode::Loading { message, branch } => ModeV::Loading {
                message: message@,
                branch: branch.deep_view(),
            },
        }
    }
}

impl ModeV {
    /// The repository that the screen belongs to, where it belongs to one.
    pub open spec fn context(self) -> Option<BranchContextV> {
        match self {
            ModeV::RepoSelect => None,
            ModeV::BranchSelect(context) => Some(context),
            ModeV::ValidatingNewBranch { context, .. } => Some(context),
            ModeV::SelectBaseBranch { context, .. } => Some(context),
            ModeV::ConfirmWorktreeDelete(flow) => Some(flow.context),
            ModeV::Loading { branch, .. } => branch,
        }
    }
}

#[derive(Debug, PartialEq, Eq)]
pub struct AppState {
    pub repo_view: RepoViewState,
    pub branch_view: BranchViewState,
    pub delete: DeleteState,
    pub new_branch: NewBranchState,
    pub mode: Mode,
    pub toasts: Vec<Toast>,
    pub scan_warning_count: u64,
    pub help_overlay: Option<HelpOverlayState>,
    pub help_filter_generation: u64,
    pub active_list_rows: usize,
    pub recency: RecencyStore,
    pub pins: PinStore,
    pub sort_order: SortOrder,
    pub on_open: OnOpenConfig,
}

#[verifier::ext_equal]
pub struct AppStateV {
    pub repo_view: RepoViewV,
    pub branch_view: BranchViewV,
    pub delete: DeleteStateV,
    pub new_branch: NewBranchState,
    pub mode: ModeV,
    pub toasts: Seq<ToastV>,
    pub scan_warning_count: u64,
    pub help_overlay: Option<HelpOverlayV>,
    pub help_filter_generation: u64,
    pub active_list_rows: usize,
    pub recency: Seq<RecencyKeyV>,
    pub pins: PinStore,
    pub sort_order: SortOrder,
    pub on_open: OnOpenConfigV,
}

impl DeepView for AppState {
    type V = AppStateV;

    open spec fn deep_view(&self) -> AppStateV {
        AppStateV {
            repo_view: self.repo_view.deep_view(),
            branch_view: self.branch_view.deep_view(),
            delete: self.delete.deep_view(),
            new_branch: self.new_branch,
            mode: self.mode.deep_view(),
            toasts: self.toasts.deep_view(),
            scan_warning_count: self.scan_warning_count,
            help_overlay: self.help_overlay.deep_view(),
            help_filter_generation: self.help_filter_generation,
            active_list_rows: self.active_list_rows,
            recency: self.recency.deep_view(),
            pins: self.pins,
            sort_order: self.sort_order,
            on_open: self.on_open.deep_view(),
        }
    }
}

impl AppStateV {
    /// The state after a notification was pushed.
    pub open spec fn told(self, kind: ToastKind, message: Seq<char>) -> AppStateV {
        AppStateV {
            toasts: with_toast(self.toasts, kind, message, ToastCategory::General),
            ..self
        }
    }

    /// The state after one more directory could not be scanned.
    pub open spec fn scan_warned(self) -> AppStateV {
        let count = if self.scan_warning_count == u64::MAX {
            u64::MAX
        } else {
            (self.scan_warning_count + 1) as u64
        };
        AppStateV {
            scan_warning_count: count,
            toasts: with_scan_warning(self.toasts, count as nat),
            ..self
        }
    }
}

impl AppState {
    pub fn new(current_cwd: Option<PathBuf>) -> (state: AppState)
        ensures
            state.deep_view().repo_view == RepoViewV::fresh(current_cwd.deep_view()),
            state.deep_view().branch_view == BranchViewV::fresh(),
            state.deep_view().delete == (DeleteStateV {
                pending: Seq::empty(),
                in_flight: Seq::empty(),
            }),
            state.new_branch.filter_generation == 0,
            state.mode == Mode::RepoSelect,
            state.toasts@.len() == 0,
            state.scan_warning_count == 0,
            state.help_overlay is None,
            state.help_filter_generation == 0,
            state.active_list_rows == 1,
            state.recency.deep_view() == Seq::<RecencyKeyV>::empty(),
            state.pins.entries@.len() == 0,
            state.pins.path is None,
            state.sort_order == SortOrder::Alphabetical,
            state.on_open.panes@.len() == 0,
    {
        let state = AppState {
            repo_view: RepoViewState::new(current_cwd),
            branch_view: BranchViewState::default(),
            delete: DeleteState::default(),
            new_branch: NewBranchState::default(),
            mode: Mode::RepoSelect,
            toasts: Vec::new(),
            scan_warning_count: 0,
            help_overlay: None,
            help_filter_generation: 0,
            active_list_rows: 1,
            recency: RecencyStore::new(),
            pins: PinStore::new(),
            sort_order: SortOrder::Alphabetical,
            on_open: OnOpenConfig { panes: Vec::new() },
        };
        state
    }

    /// Takes in the rules by which the host compares paths; a new state has those of Unix.
    pub fn use_path_rules(&mut self, rules: PathRules)
        ensures
            final(self).deep_view() == (AppStateV {
                repo_view: RepoViewV { path_rules: rules, ..old(self).deep_view().repo_view },
                branch_view: BranchViewV { path_rules: rules, ..old(self).deep_view().branch_view },
                ..old(self).deep_view()
            }),
    {
        self.repo_view.path_rules = rules;
        self.branch_view.path_rules = rules;
    }

    /// The repository that the screen belongs to, where it belongs to one.
    pub fn branch_context(&self) -> (context: Option<&BranchContext>)
        ensures
            context.deep_view() == self.deep_view().mode.context(),
    {
        match &self.mode {
            Mode::BranchSelect(context) => Some(context),
            Mode::ValidatingNewBranch { context, .. } => Some(context),
            Mode::SelectBaseBranch { context, .. } => Some(context),
            Mode::ConfirmWorktreeDelete(flow) => Some(&flow.context),
            Mode::Loading { branch: Some(context), .. } => Some(context),
            _ => None,
        }
    }

    /// Adds a notification.
    pub fn push_toast(&mut self, kind: ToastKind, message: &str)
        ensures
            final(self).deep_view() == old(self).deep_view().told(kind, message@),
    {
        push_toast_with_category(&mut self.toasts, kind, message, ToastCategory::General);
    }

    /// Takes in that one more directory could not be scanned.
    pub fn push_scan_warning(&mut self)
        ensures
            final(self).deep_view() == old(self).deep_view().scan_warned(),
    {
        if self.scan_warning_count < u64::MAX {
            self.scan_warning_count = self.scan_warning_count + 1;
        }
        push_scan_warning(&mut self.toasts, self.scan_warning_count);
    }

    /// Removes the first notification.
    pub fn dismiss_toast(&mut self)
        ensures
            final(self).deep_view() == (AppStateV {
                toasts: if old(self).deep_view().toasts.len() == 0 {
                    old(self).deep_view().toasts
                } else {
                    old(self).deep_view().toasts.drop_first()
                },
                ..old(self).deep_view()
            }),
    {
        dismiss(&mut self.toasts);
    }
}

impl AppState {
    pub fn selected_repo(&self) -> (entry: Option<&RepoEntry>)
        ensures
            entry.deep_view() == self.deep_view().repo_view.selected(),
    {
        self.repo_view.selected()
    }

    pub fn selected_branch(&self) -> (entry: Option<&BranchEntry>)
        ensures
            entry.deep_view() == self.deep_view().branch_view.selected(),
    {
        self.branch_view.selected()
    }

    /// Where a typed branch name leads.
    pub fn new_branch_route(&self) -> (found: Result<NewBranchRoute, &'static str>)
        ensures
            route_view(found) == route_of(self.deep_view()),
    {
        route(self)
    }

    /// The checkout that the selected row offers for removal. The canonical paths of the
    /// checkout and of its repository are given where they are known.
    pub fn selected_worktree_for_delete(
        &self,
        canonical_checkout: Option<&PathBuf>,
        canonical_repo: Option<&PathBuf>,
    ) -> (found: Result<DeleteWorktreeTarget, &'static str>)
        ensures
            target_view(found) == target_of(
                self.deep_view(),
                canonical_checkout.deep_view(),
                canonical_repo.deep_view(),
            ),
    {
        selected_target(self, canonical_checkout, canonical_repo)
    }

    pub fn mark_pending_worktree_delete(&mut self, pending: PendingWorktreeDelete)
        ensures
            final(self).deep_view() == old(self).deep_view().with_pending(
                marked(old(self).deep_view().delete.pending, pending.deep_view(), old(self).repo_view.path_rules),
            ),
    {
        let rules = self.repo_view.path_rules;
        mark(&mut self.delete.pending, pending, rules);
    }

    pub fn clear_pending_worktree_delete(&mut self, worktree_path: &PathBuf)
        ensures
            final(self).deep_view() == old(self).deep_view().with_pending(
                cleared(old(self).deep_view().delete.pending, worktree_path@, old(self).repo_view.path_rules),
            ),
    {
        let rules = self.repo_view.path_rules;
        clear(&mut self.delete.pending, worktree_path, rules);
    }

    /// Drops the removals of a repository that do not go on.
    pub fn reconcile_pending_worktree_deletes(&mut self, repo_path: &PathBuf, now: u64) -> (changed:
        bool)
        ensures
            final(self).deep_view() == old(self).deep_view().reconciled(repo_path@, now),
            changed == (final(self).delete.pending@.len() != old(self).delete.pending@.len()),
    {
        reconcile_pending(self, repo_path, now)
    }

    /// Sorts the list of repositories.
    pub fn canonical_sort(&mut self)
        ensures
            final(self).deep_view() == (AppStateV {
                repo_view: old(self).deep_view().repo_view.resorted(
                    old(self).sort_order,
                    old(self).deep_view().recency,
                ),
                ..old(self).deep_view()
            }),
            final(self).deep_view().repo_view.list_valid(),
    {
        sort_entries(self);
    }

    /// Selects the repository where the picker was started.
    pub fn apply_current_repo_selection(&mut self)
        requires
            old(self).deep_view().repo_view.list_valid(),
        ensures
            final(self).deep_view() == (AppStateV {
                repo_view: old(self).deep_view().repo_view.on_current(),
                ..old(self).deep_view()
            }),
            final(self).deep_view().repo_view.list_valid(),
    {
        self.repo_view.apply_current_selection();
    }
}

} // verus!
