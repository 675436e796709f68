//! The picker as a whole: what events and actions do to it.

pub use crate::effects::{Effect, FilterItem, FilterRequest, TickChanges};
pub use crate::fuzzy::{fuzzy_filter, fuzzy_rank};

use crate::components::help::{fresh_overlay, overlay};
use crate::config::keys::{chord_display, first_in_sections, mode_of, BindingMode, Command, KeysConfig, KeysConfigV};
use crate::branches::BranchId;
use crate::effects::{RemoteLoading, EffectV, FilterItemV, FilterRequestV, TickChangesV};
use crate::event::{AppEvent, FilterKey, FilterKeyV, FilterTarget};
use crate::git::{Repo, RepoV};
use crate::input::{all_rows, every_row, Edit, SearchableList, SearchableListV};
use crate::keyboard::Action;
use crate::path::PathBuf;
use crate::rows::{advance, next_generation, or_first};
use crate::screens::repo::RepoViewV;
use crate::screens::{branch, delete, new_branch, repo};
use crate::state::{AppState, AppStateV, HelpBindingRow, HelpBindingRowV, HelpOverlayState, HelpOverlayV, Mode, ModeV};
use crate::text::{concat, concat3};
use vstd::prelude::*;
use vstd::string::*;

verus! {

/// Whether the screen is to be drawn.
#[derive(Debug, Clone, Copy, PartialEq, Eq, Structural)]
pub struct RedrawState {
    pub dirty: bool,
}

impl RedrawState {
    pub fn new() -> (state: RedrawState)
        ensures
            state.dirty,
    {
        RedrawState { dirty: true }
    }

    pub fn mark_dirty(&mut self)
        ensures
            final(self).dirty,
    {
        self.dirty = true;
    }

    /// Whether to draw now: something changed, or something moves.
    pub fn take(&mut self, animation_active: bool) -> (redraw: bool)
        ensures
            redraw == (old(self).dirty || animation_active),
            !final(self).dirty,
    {
        let redraw = self.dirty || animation_active;
        self.dirty = false;
        redraw
    }
}

/// How the picker ends.
#[derive(Debug, Clone, Copy, PartialEq, Eq, Structural)]
pub enum RunOutcome {
    Quit,
    Opened,
}

/// The score that the last match of a row gave it.
pub open spec fn last_score(matches: Seq<(FilterKeyV, i64)>, index: usize) -> Option<i64>
    decreases matches.len(),
{
    if matches.len() == 0 {
        None
    } else if matches.last().0 == FilterKeyV::Help(index) {
        Some(matches.last().1)
    } else {
        last_score(matches.drop_last(), index)
    }
}

/// The rows of the help that match, in the order of the help.
pub open spec fn help_matches(matches: Seq<(FilterKeyV, i64)>, count: nat) -> Seq<(usize, i64)>
    decreases count,
{
    if count == 0 {
        Seq::empty()
    } else {
        let before = help_matches(matches, (count - 1) as nat);
        match last_score(matches, (count - 1) as usize) {
            Some(score) => before.push(((count - 1) as usize, score)),
            None => before,
        }
    }
}

/// The first position that shows a row.
pub open spec fn position_of_row(rows: Seq<(usize, i64)>, index: usize) -> Option<usize>
    decreases rows.len(),
{
    if rows.len() == 0 {
        None
    } else {
        match position_of_row(rows.drop_last(), index) {
            Some(position) => Some(position),
            None => if rows.last().0 == index {
                Some((rows.len() - 1) as usize)
            } else {
                None
            },
        }
    }
}

pub open spec fn help_key(key: Option<FilterKeyV>) -> Option<usize> {
    match key {
        Some(FilterKeyV::Help(index)) => Some(index),
        _ => None,
    }
}

/// The help after its matches came back: they keep the order of the help, and what was
/// selected stays selected.
pub open spec fn help_filtered(
    help: HelpOverlayV,
    matches: Seq<(FilterKeyV, i64)>,
    selected: Option<FilterKeyV>,
) -> HelpOverlayV {
    let list = help.list;
    let rows = help_matches(matches, help.rows.len());
    let current = match list.selected {
        Some(position) => if position < list.filtered.len() {
            Some(list.filtered[position as int].0)
        } else {
            None
        },
        None => None,
    };
    let wanted = match current {
        Some(index) => Some(index),
        None => help_key(selected),
    };
    HelpOverlayV {
        list: SearchableListV {
            filtered: rows,
            selected: or_first(
                match wanted {
                    Some(index) => position_of_row(rows, index),
                    None => None,
                },
                rows.len(),
            ),
            scroll_offset: 0,
            ..list
        },
        ..help
    }
}

fn find_last_score(matches: &Vec<(FilterKey, i64)>, index: usize) -> (score: Option<i64>)
    ensures
        score == last_score(matches.deep_view(), index),
{
    let ghost all = matches.deep_view();
    let mut i: usize = matches.len();
    assert(all.take(all.len() as int) =~= all);
    while i > 0
        invariant
            i <= matches.len(),
            all == matches.deep_view(),
            last_score(all, index) == last_score(all.take(i as int), index),
        decreases i,
    {
        proof {
            assert(all.take(i as int).drop_last() =~= all.take(i - 1));
            assert(all.take(i as int).last() == matches@[i - 1].deep_view());
        }
        i = i - 1;
        match &matches[i].0 {
            FilterKey::Help(found) => {
                if *found == index {
                    return Some(matches[i].1);
                }
            },
            _ => {},
        }
    }
    None
}

proof fn lemma_position_of_row_prefix(rows: Seq<(usize, i64)>, index: usize, count: int)
    requires
        0 <= count <= rows.len(),
        position_of_row(rows.take(count), index) is Some,
    ensures
        position_of_row(rows, index) == position_of_row(rows.take(count), index),
    decreases rows.len(),
{
    if count == rows.len() {
        assert(rows.take(count) =~= rows);
    } else {
        assert(rows.drop_last().take(count) =~= rows.take(count));
        lemma_position_of_row_prefix(rows.drop_last(), index, count);
    }
}

fn find_position_of_row(rows: &Vec<(usize, i64)>, index: usize) -> (position: Option<usize>)
    ensures
        position == position_of_row(rows@, index),
{
    let mut i: usize = 0;
    while i < rows.len()
        invariant
            i <= rows.len(),
            position_of_row(rows@.take(i as int), index) is None,
        decreases rows.len() - i,
    {
        proof {
            assert(rows@.take(i + 1).drop_last() =~= rows@.take(i as int));
            assert(rows@.take(i + 1).last() == rows@[i as int]);
        }
        if rows[i].0 == index {
            proof {
                lemma_position_of_row_prefix(rows@, index, i + 1);
            }
            return Some(i);
        }
        i = i + 1;
    }
    assert(rows@.take(rows@.len() as int) =~= rows@);
    None
}

#[verifier::loop_isolation(false)]
fn find_help_matches(matches: &Vec<(FilterKey, i64)>, count: usize) -> (rows: Vec<(usize, i64)>)
    ensures
        rows@ == help_matches(matches.deep_view(), count as nat),
{
    let mut rows: Vec<(usize, i64)> = Vec::new();
    let mut i: usize = 0;
    while i < count
        invariant
            i <= count,
            rows@ == help_matches(matches.deep_view(), i as nat),
        decreases count - i,
    {
        match find_last_score(matches, i) {
            Some(score) => rows.push((i, score)),
            None => {},
        }
        i = i + 1;
    }
    rows
}

fn apply_help_filter_result(
    help: &mut HelpOverlayState,
    matches: &Vec<(FilterKey, i64)>,
    selected: Option<&FilterKey>,
)
    ensures
        final(help).deep_view() == help_filtered(
            old(help).deep_view(),
            matches.deep_view(),
            selected.deep_view(),
        ),
{
    let current: Option<usize> = match help.list.selected {
        Some(position) => if position < help.list.filtered.len() {
            Some(help.list.filtered[position].0)
        } else {
            None
        },
        None => None,
    };
    let wanted: Option<usize> = match current {
        Some(index) => Some(index),
        None => match selected {
            Some(FilterKey::Help(index)) => Some(*index),
            _ => None,
        },
    };
    assert(help.rows.deep_view().len() == help.rows@.len());
    help.list.filtered = find_help_matches(matches, help.rows.len());
    let position = match wanted {
        Some(index) => find_position_of_row(&help.list.filtered, index),
        None => None,
    };
    help.list.selected = match position {
        Some(at) => Some(at),
        None => if help.list.filtered.len() > 0 {
            Some(0)
        } else {
            None
        },
    };
    help.list.scroll_offset = 0;
}

/// What is left for the picker to do with an event that no screen took.
pub open spec fn after_other_event(event: AppEvent, state: AppStateV, changes: TickChangesV) -> (
    AppStateV,
    TickChangesV,
) {
    match event {
        AppEvent::FilterCompleted { target, generation, matches, selected } => (
            match state.help_overlay {
                Some(help) => if target == FilterTarget::Help && generation
                    == state.help_filter_generation {
                    AppStateV {
                        help_overlay: Some(
                            help_filtered(help, matches.deep_view(), selected.deep_view()),
                        ),
                        ..state
                    }
                } else {
                    state
                },
                None => state,
            },
            changes,
        ),
        AppEvent::RepoOpened { warning } => (
            state,
            TickChangesV {
                open_warning: warning.deep_view(),
                workspace_opened: true,
                ..changes
            },
        ),
        _ => (state, changes),
    }
}

/// What an event does: the first screen that it is for takes it.
pub open spec fn after_event(
    event: AppEvent,
    state: AppStateV,
    changes: TickChangesV,
    now: u64,
) -> (AppStateV, TickChangesV) {
    match branch::after_event(event, state, changes, now) {
        Some(after) => after,
        None => match delete::after_event(event, state, changes) {
            Some(after) => after,
            None => match repo::after_event(event, state, changes) {
                Some(after) => after,
                None => match new_branch::after_event(event, state) {
                    Some(state_after) => (state_after, changes),
                    None => after_other_event(event, state, changes),
                },
            },
        },
    }
}

/// Takes an event in.
pub fn process_app_event(
    event: AppEvent,
    state: &mut AppState,
    changes: &mut TickChanges,
    now: u64,
)
    ensures
        (final(state).deep_view(), final(changes).deep_view()) == after_event(
            event,
            old(state).deep_view(),
            old(changes).deep_view(),
            now,
        ),
{
    let event = match branch::handle_event(event, state, changes, now) {
        Some(event) => event,
        None => return,
    };
    let event = match delete::handle_event(event, state, changes) {
        Some(event) => event,
        None => return,
    };
    let event = match repo::handle_event(event, state, changes) {
        Some(event) => event,
        None => return,
    };
    let event = match new_branch::handle_event(event, state) {
        Some(event) => event,
        None => return,
    };
    match event {
        AppEvent::FilterCompleted { target, generation, matches, selected } => {
            if target == FilterTarget::Help && generation == state.help_filter_generation {
                if let Some(help) = &mut state.help_overlay {
                    apply_help_filter_result(help, &matches, selected.as_ref());
                }
            }
        },
        AppEvent::RepoOpened { warning } => {
            changes.open_warning = warning;
            changes.workspace_opened = true;
        },
        _ => {},
    }
}

/// How the picker ends after a tick, with the warning that is to be shown then.
pub fn apply_exit_effects(changes: &mut TickChanges) -> (outcome: Option<
    (RunOutcome, Option<String>),
>)
    ensures
        if old(changes).workspace_opened {
            &&& outcome matches Some((ended, warning))
            &&& ended == RunOutcome::Opened
            &&& warning.deep_view() == old(changes).deep_view().open_warning
            &&& final(changes).deep_view() == (TickChangesV {
                open_warning: None,
                ..old(changes).deep_view()
            })
        } else {
            outcome is None && *final(changes) == *old(changes)
        },
{
    if !changes.workspace_opened {
        return None;
    }
    let mut warning: Option<String> = None;
    std::mem::swap(&mut warning, &mut changes.open_warning);
    Some((RunOutcome::Opened, warning))
}

/// What is printed of a warning that could not be shown as a notification.
pub open spec fn printed_warning(warning: Seq<char>, error: Option<Seq<char>>) -> Seq<char> {
    match error {
        Some(error) => "herdr-kiosk: "@ + warning + " (notification failed: "@ + error + ")"@,
        None => "herdr-kiosk: "@ + warning,
    }
}

pub fn warning_line(warning: &str, error: Option<&str>) -> (line: String)
    ensures
        line@ == printed_warning(warning@, error.deep_view()),
{
    match error {
        Some(error) => {
            let head = concat3("herdr-kiosk: ", warning, " (notification failed: ");
            concat3(head.as_str(), error, ")")
        },
        None => concat("herdr-kiosk: ", warning),
    }
}

/// What an action needs to know of the world around the picker.
#[derive(Debug, PartialEq, Eq)]
pub struct Surroundings {
    pub inside_herdr: bool,
    /// Seconds since the start of the Unix epoch.
    pub now: u64,
    /// The canonical path of the selected checkout, where it is known.
    pub canonical_checkout: Option<PathBuf>,
    /// The canonical path of the repository that is shown, where it is known.
    pub canonical_repo: Option<PathBuf>,
}

#[verifier::ext_equal]
pub struct SurroundingsV {
    pub inside_herdr: bool,
    pub now: u64,
    pub canonical_checkout: Option<Seq<u8>>,
    pub canonical_repo: Option<Seq<u8>>,
}

impl DeepView for Surroundings {
    type V = SurroundingsV;

    open spec fn deep_view(&self) -> SurroundingsV {
        SurroundingsV {
            inside_herdr: self.inside_herdr,
            now: self.now,
            canonical_checkout: self.canonical_checkout.deep_view(),
            canonical_repo: self.canonical_repo.deep_view(),
        }
    }
}

/// What an action does besides changing the state.
#[derive(Debug, PartialEq, Eq)]
pub struct ActionOutcome {
    pub outcome: Option<RunOutcome>,
    pub effects: Vec<Effect>,
}

#[verifier::ext_equal]
pub struct ActionOutcomeV {
    pub outcome: Option<RunOutcome>,
    pub effects: Seq<EffectV>,
}

impl DeepView for ActionOutcome {
    type V = ActionOutcomeV;

    open spec fn deep_view(&self) -> ActionOutcomeV {
        ActionOutcomeV { outcome: self.outcome, effects: self.effects.deep_view() }
    }
}

impl ActionOutcomeV {
    pub open spec fn none() -> ActionOutcomeV {
        ActionOutcomeV { outcome: None, effects: Seq::empty() }
    }

    pub open spec fn one(effect: Option<EffectV>) -> ActionOutcomeV {
        match effect {
            Some(effect) => ActionOutcomeV { outcome: None, effects: seq![effect] },
            None => ActionOutcomeV::none(),
        }
    }

    pub open spec fn filter(request: Option<FilterRequestV>) -> ActionOutcomeV {
        match request {
            Some(request) => ActionOutcomeV::one(Some(EffectV::Filter(request))),
            None => ActionOutcomeV::none(),
        }
    }
}

fn no_effects() -> (outcome: ActionOutcome)
    ensures
        outcome.deep_view() == ActionOutcomeV::none(),
{
    let outcome = ActionOutcome { outcome: None, effects: Vec::new() };
    assert(outcome.deep_view() =~= ActionOutcomeV::none());
    outcome
}

fn one_effect(effect: Option<Effect>) -> (outcome: ActionOutcome)
    ensures
        outcome.deep_view() == ActionOutcomeV::one(effect.deep_view()),
{
    match effect {
        Some(effect) => {
            let ghost view = effect.deep_view();
            let mut effects: Vec<Effect> = Vec::new();
            effects.push(effect);
            assert(effects.deep_view() =~= seq![view]);
            ActionOutcome { outcome: None, effects }
        },
        None => no_effects(),
    }
}

fn filter_effect(request: Option<FilterRequest>) -> (outcome: ActionOutcome)
    ensures
        outcome.deep_view() == ActionOutcomeV::filter(request.deep_view()),
{
    match request {
        Some(request) => one_effect(Some(Effect::Filter(request))),
        None => no_effects(),
    }
}

/// The help after its query changed, and what is asked of the filter: an empty query needs
/// none.
pub open spec fn help_refiltered(help: HelpOverlayV, generation: u64) -> (
    HelpOverlayV,
    Option<FilterRequestV>,
) {
    if help.list.input.text.len() == 0 {
        (
            HelpOverlayV {
                list: SearchableListV {
                    filtered: all_rows(help.rows.len()),
                    selected: or_first(None, help.rows.len()),
                    scroll_offset: 0,
                    ..help.list
                },
                ..help
            },
            None,
        )
    } else {
        (
            help,
            Some(
                FilterRequestV {
                    target: FilterTarget::Help,
                    generation,
                    query: help.list.input.text,
                    items: help_items(help.rows),
                    selected: None,
                },
            ),
        )
    }
}

pub open spec fn help_items(rows: Seq<HelpBindingRowV>) -> Seq<FilterItemV> {
    Seq::new(
        rows.len(),
        |i: int| FilterItemV { key: FilterKeyV::Help(i as usize), text: rows[i].searched() },
    )
}

fn help_filter_items(rows: &Vec<HelpBindingRow>) -> (items: Vec<FilterItem>)
    ensures
        items.deep_view() == help_items(rows.deep_view()),
{
    let mut items: Vec<FilterItem> = Vec::new();
    let mut i: usize = 0;
    while i < rows.len()
        invariant
            i <= rows.len(),
            items@.len() == i,
            forall|k: int|
                0 <= k < i ==> (#[trigger] items@[k]).deep_view() == (FilterItemV {
                    key: FilterKeyV::Help(k as usize),
                    text: rows@[k].deep_view().searched(),
                }),
        decreases rows.len() - i,
    {
        items.push(FilterItem { key: FilterKey::Help(i), text: rows[i].search_text() });
        i = i + 1;
    }
    assert(items.deep_view() =~= help_items(rows.deep_view()));
    items
}

fn queue_help_filter(help: &mut HelpOverlayState, generation: u64) -> (request: Option<
    FilterRequest,
>)
    ensures
        (final(help).deep_view(), request.deep_view()) == help_refiltered(
            old(help).deep_view(),
            generation,
        ),
{
    assert(help.rows.deep_view().len() == help.rows@.len());
    if help.list.input.text.as_str().is_empty() {
        help.list.filtered = every_row(help.rows.len());
        help.list.selected = if help.rows.len() > 0 {
            Some(0)
        } else {
            None
        };
        help.list.scroll_offset = 0;
        return None;
    }
    Some(
        FilterRequest {
            target: FilterTarget::Help,
            generation,
            query: help.list.input.text.clone(),
            items: help_filter_items(&help.rows),
            selected: None,
        },
    )
}

/// Changing what is searched for: in the help where it is shown, else on the screen below.
pub open spec fn after_edit(state: AppStateV, change: Edit) -> (AppStateV, Option<FilterRequestV>) {
    match state.help_overlay {
        Some(help) => {
            let generation = next_generation(state.help_filter_generation);
            let edited = HelpOverlayV {
                list: SearchableListV { input: help.list.input.edited(change), ..help.list },
                ..help
            };
            let (after, request) = help_refiltered(edited, generation);
            (
                AppStateV {
                    help_overlay: Some(after),
                    help_filter_generation: generation,
                    ..state
                },
                request,
            )
        },
        None => match state.mode {
            ModeV::RepoSelect => AppStateV {
                repo_view: RepoViewV {
                    selection_touched: true,
                    list: SearchableListV {
                        input: state.repo_view.list.input.edited(change),
                        ..state.repo_view.list
                    },
                    ..state.repo_view
                },
                ..state
            }.repos_refiltered(false),
            ModeV::BranchSelect(_) => {
                let (view, request) = branch::BranchViewV {
                    list: SearchableListV {
                        input: state.branch_view.list.input.edited(change),
                        ..state.branch_view.list
                    },
                    ..state.branch_view
                }.refiltered(None);
                (state.with_branches(view), request)
            },
            ModeV::SelectBaseBranch { .. } => state.base_edited(change).bases_refiltered(),
            _ => (state, None),
        },
    }
}

fn edit_active_list(state: &mut AppState, change: Edit) -> (request: Option<FilterRequest>)
    ensures
        (final(state).deep_view(), request.deep_view()) == after_edit(
            old(state).deep_view(),
            change,
        ),
{
    let generation: u64 = advance(state.help_filter_generation);
    if let Some(help) = &mut state.help_overlay {
        help.list.input.edit(change);
        let request = queue_help_filter(help, generation);
        state.help_filter_generation = generation;
        return request;
    }
    match &state.mode {
        Mode::RepoSelect => repo::edit(state, change),
        Mode::BranchSelect(_) => branch::edit(state, change),
        Mode::SelectBaseBranch { .. } => new_branch::edit(state, change),
        _ => None,
    }
}

/// The list whose cursor the keys move.
pub open spec fn active_list(state: AppStateV) -> SearchableListV {
    match state.help_overlay {
        Some(help) => help.list,
        None => match state.mode {
            ModeV::BranchSelect(_) => state.branch_view.list,
            ModeV::SelectBaseBranch { flow, .. } => flow.list,
            _ => state.repo_view.list,
        },
    }
}

pub open spec fn with_active_list(state: AppStateV, list: SearchableListV) -> AppStateV {
    match state.help_overlay {
        Some(help) => AppStateV { help_overlay: Some(HelpOverlayV { list, ..help }), ..state },
        None => match state.mode {
            ModeV::BranchSelect(_) => state.with_branches(
                branch::BranchViewV { list, ..state.branch_view },
            ),
            ModeV::SelectBaseBranch { .. } => state.with_base_list(list),
            _ => AppStateV { repo_view: RepoViewV { list, ..state.repo_view }, ..state },
        },
    }
}

pub open spec fn cursor_moved(list: SearchableListV, right: bool) -> SearchableListV {
    SearchableListV {
        input: if right {
            list.input.moved_right()
        } else {
            list.input.moved_left()
        },
        ..list
    }
}

fn move_list_cursor(list: &mut SearchableList, right: bool)
    ensures
        final(list).deep_view() == cursor_moved(old(list).deep_view(), right),
{
    if right {
        list.input.cursor_right();
    } else {
        list.input.cursor_left();
    }
}

fn move_cursor(state: &mut AppState, right: bool)
    ensures
        final(state).deep_view() == with_active_list(
            old(state).deep_view(),
            cursor_moved(active_list(old(state).deep_view()), right),
        ),
{
    if let Some(help) = &mut state.help_overlay {
        move_list_cursor(&mut help.list, right);
        return;
    }
    match &mut state.mode {
        Mode::BranchSelect(_) => move_list_cursor(&mut state.branch_view.list, right),
        Mode::SelectBaseBranch { flow, .. } => move_list_cursor(&mut flow.list, right),
        _ => move_list_cursor(&mut state.repo_view.list, right),
    }
}

/// Moving the selection: in the help where it is shown, else on the screen below.
pub open spec fn after_move(state: AppStateV, delta: int) -> AppStateV {
    match state.help_overlay {
        Some(help) => AppStateV {
            help_overlay: Some(HelpOverlayV { list: help.list.moved(delta), ..help }),
            ..state
        },
        None => match state.mode {
            ModeV::RepoSelect => AppStateV {
                repo_view: RepoViewV {
                    selection_touched: true,
                    list: state.repo_view.list.moved(delta),
                    ..state.repo_view
                },
                ..state
            },
            ModeV::BranchSelect(_) => state.with_branches(
                branch::BranchViewV {
                    list: state.branch_view.list.moved(delta),
                    ..state.branch_view
                },
            ),
            ModeV::SelectBaseBranch { .. } => state.base_moved(delta),
            _ => state,
        },
    }
}

fn move_selection(state: &mut AppState, delta: i32)
    ensures
        final(state).deep_view() == after_move(old(state).deep_view(), delta as int),
{
    if let Some(help) = &mut state.help_overlay {
        help.list.move_selection(delta);
        return;
    }
    match &state.mode {
        Mode::RepoSelect => repo::move_selection(state, delta),
        Mode::BranchSelect(_) => branch::move_selection(state, delta),
        Mode::SelectBaseBranch { .. } => new_branch::move_selection(state, delta),
        _ => {},
    }
}

/// Closing the dialog that is shown.
pub open spec fn after_cancel_overlay(state: AppStateV) -> (AppStateV, Option<EffectV>) {
    let (declined, was_asked, effect) = delete::after_cancel(state);
    if was_asked {
        (declined, effect)
    } else {
        match state.mode {
            ModeV::SelectBaseBranch { context, .. } => (
                AppStateV { mode: ModeV::BranchSelect(context), ..state },
                None,
            ),
            _ => (state, None),
        }
    }
}

fn cancel_overlay(state: &mut AppState) -> (effect: Option<Effect>)
    ensures
        (final(state).deep_view(), effect.deep_view()) == after_cancel_overlay(
            old(state).deep_view(),
        ),
{
    let (was_asked, effect) = delete::cancel(state);
    if was_asked {
        return effect;
    }
    let _ = new_branch::cancel(state);
    None
}

/// What an action does: the state after it, how the picker ends, and what is asked for.
pub open spec fn after_action(
    action: Action,
    state: AppStateV,
    keys: KeysConfigV,
    around: SurroundingsV,
) -> (AppStateV, ActionOutcomeV) {
    let none = ActionOutcomeV::none();
    match action {
        Action::Quit => (
            state,
            ActionOutcomeV { outcome: Some(RunOutcome::Quit), effects: Seq::empty() },
        ),
        Action::MoveSelection(delta) => (after_move(state, delta as int), none),
        Action::Insert(character) => {
            let (after, request) = after_edit(state, Edit::Insert(character));
            (after, ActionOutcomeV::filter(request))
        },
        Action::Backspace => {
            let (after, request) = after_edit(state, Edit::Backspace);
            (after, ActionOutcomeV::filter(request))
        },
        Action::DeleteWord => {
            let (after, request) = after_edit(state, Edit::DeleteWord);
            (after, ActionOutcomeV::filter(request))
        },
        Action::ClearQuery => {
            let (after, request) = after_edit(state, Edit::Clear);
            (after, ActionOutcomeV::filter(request))
        },
        Action::CursorLeft => (
            with_active_list(state, cursor_moved(active_list(state), false)),
            none,
        ),
        Action::CursorRight => (
            with_active_list(state, cursor_moved(active_list(state), true)),
            none,
        ),
        Action::OpenRepo => {
            let (after, effect) = repo::after_open(state, around.inside_herdr);
            (after, ActionOutcomeV::one(effect))
        },
        Action::OpenBranches => {
            let (after, effects) = branch::after_enter(state, around.inside_herdr);
            (after, ActionOutcomeV { outcome: None, effects })
        },
        Action::OpenBranch => match state.branch_view.selected() {
            Some(entry) => {
                let (after, effect) = branch::after_open(state, entry, around.inside_herdr);
                (after, ActionOutcomeV::one(effect))
            },
            None => (state, none),
        },
        Action::StartNewBranch => {
            let (after, effect) = new_branch::after_start(state, around.inside_herdr);
            (after, ActionOutcomeV::one(effect))
        },
        Action::CreateNewBranch => {
            let (after, effect) = new_branch::after_create(state, around.inside_herdr);
            (after, ActionOutcomeV::one(effect))
        },
        Action::DeleteWorktree => (
            delete::after_begin(state, around.canonical_checkout, around.canonical_repo),
            none,
        ),
        Action::ConfirmDeleteWorktree => {
            let (after, effect) = delete::after_confirm(state, around.now);
            (after, ActionOutcomeV::one(effect))
        },
        Action::CancelOverlay => {
            let (after, effect) = after_cancel_overlay(state);
            (after, ActionOutcomeV::one(effect))
        },
        Action::BackToRepos => {
            let (after, request) = AppStateV {
                mode: ModeV::RepoSelect,
                branch_view: state.branch_view.without_remotes(),
                ..state
            }.repos_refiltered(true);
            (after, ActionOutcomeV::filter(request))
        },
        Action::DismissToast => (
            AppStateV {
                toasts: if state.toasts.len() == 0 {
                    state.toasts
                } else {
                    state.toasts.drop_first()
                },
                ..state
            },
            none,
        ),
        Action::ShowHelp => (
            AppStateV {
                help_overlay: Some(fresh_overlay(keys, mode_of(state.mode))),
                help_filter_generation: next_generation(state.help_filter_generation),
                ..state
            },
            none,
        ),
        Action::CloseHelp => (AppStateV { help_overlay: None, ..state }, none),
        Action::Noop => (state, none),
    }
}

/// Carries an action out. What it asks for is handed back.
pub fn process_action(
    action: Action,
    state: &mut AppState,
    keys: &KeysConfig,
    around: &Surroundings,
) -> (outcome: ActionOutcome)
    requires
        action is OpenBranches ==> branch::visit_countable(old(state).deep_view()),
    ensures
        (final(state).deep_view(), outcome.deep_view()) == after_action(
            action,
            old(state).deep_view(),
            keys.deep_view(),
            around.deep_view(),
        ),
{
    match action {
        Action::Quit => {
            let mut outcome = no_effects();
            outcome.outcome = Some(RunOutcome::Quit);
            outcome
        },
        Action::MoveSelection(delta) => {
            move_selection(state, delta);
            no_effects()
        },
        Action::Insert(character) => {
            filter_effect(edit_active_list(state, Edit::Insert(character)))
        },
        Action::Backspace => filter_effect(edit_active_list(state, Edit::Backspace)),
        Action::DeleteWord => filter_effect(edit_active_list(state, Edit::DeleteWord)),
        Action::ClearQuery => filter_effect(edit_active_list(state, Edit::Clear)),
        Action::CursorLeft => {
            move_cursor(state, false);
            no_effects()
        },
        Action::CursorRight => {
            move_cursor(state, true);
            no_effects()
        },
        Action::OpenRepo => one_effect(repo::open_selected(state, around.inside_herdr)),
        Action::OpenBranches => {
            let effects = branch::enter(state, around.inside_herdr);
            ActionOutcome { outcome: None, effects }
        },
        Action::OpenBranch => one_effect(branch::open_selected(state, around.inside_herdr)),
        Action::StartNewBranch => one_effect(new_branch::start(state, around.inside_herdr)),
        Action::CreateNewBranch => one_effect(new_branch::create(state, around.inside_herdr)),
        Action::DeleteWorktree => {
            delete::begin(
                state,
                around.canonical_checkout.as_ref(),
                around.canonical_repo.as_ref(),
            );
            no_effects()
        },
        Action::ConfirmDeleteWorktree => one_effect(delete::confirm(state, around.now)),
        Action::CancelOverlay => one_effect(cancel_overlay(state)),
        Action::BackToRepos => {
            branch::leave(state);
            filter_effect(repo::queue_filter(state, true))
        },
        Action::DismissToast => {
            state.dismiss_toast();
            no_effects()
        },
        Action::ShowHelp => {
            let mode = KeysConfig::mode_for(&state.mode);
            state.help_overlay = Some(overlay(keys, mode));
            state.help_filter_generation = advance(state.help_filter_generation);
            no_effects()
        },
        Action::CloseHelp => {
            state.help_overlay = None;
            no_effects()
        },
        Action::Noop => no_effects(),
    }
}

/// Whether something on the screen moves.
pub open spec fn animated(state: AppStateV) -> bool {
    let branches = state.branch_view.loading || state.branch_view.fetching_remote_repo is Some;
    match state.mode {
        ModeV::RepoSelect => state.repo_view.loading,
        ModeV::BranchSelect(_) => branches,
        ModeV::SelectBaseBranch { .. } => branches,
        ModeV::ValidatingNewBranch { .. } => true,
        ModeV::Loading { .. } => true,
        ModeV::ConfirmWorktreeDelete(flow) => branches || flow.target.in_progress,
    }
}

pub fn animation_active(state: &AppState) -> (answer: bool)
    ensures
        answer == animated(state.deep_view()),
{
    let branches = state.branch_view.loading || state.branch_view.fetching_remote_repo.is_some();
    match &state.mode {
        Mode::RepoSelect => state.repo_view.loading,
        Mode::BranchSelect(_) => branches,
        Mode::SelectBaseBranch { .. } => branches,
        Mode::ValidatingNewBranch { .. } => true,
        Mode::Loading { .. } => true,
        Mode::ConfirmWorktreeDelete(flow) => branches || flow.target.in_progress,
    }
}

/// The hint that is shown while something is opened.
pub fn loading_hint(keys: &KeysConfig) -> (hint: Option<String>)
    ensures
        hint.deep_view() == match first_in_sections(
            keys.deep_view().help(BindingMode::Modal),
            Command::Quit,
        ) {
            Some(chord) => Some(chord_display(chord) + " to close (operation continues)"@),
            None => None,
        },
{
    match keys.first_key(BindingMode::Modal, Command::Quit) {
        Some(key) => Some(concat(key.to_text().as_str(), " to close (operation continues)")),
        None => None,
    }
}

pub open spec fn filter_effects(request: Option<FilterRequestV>) -> Seq<EffectV> {
    match request {
        Some(request) => seq![EffectV::Filter(request)],
        None => Seq::empty(),
    }
}

/// The branch list filtered anew where it changed, with the noted selection.
pub open spec fn after_branch_changes(state: AppStateV, changes: TickChangesV) -> (
    AppStateV,
    Option<FilterRequestV>,
) {
    if changes.branches_changed {
        let (view, request) = state.branch_view.refiltered(changes.pinned_branch_selection);
        (state.with_branches(view), request)
    } else {
        (state, None)
    }
}

/// The branch list loaded anew where that was noted.
pub open spec fn after_refresh(state: AppStateV, repo: Option<RepoV>, inside_herdr: bool) -> (
    AppStateV,
    Seq<EffectV>,
) {
    match repo {
        Some(repo) => {
            let generation = (state.branch_view.generation + 1) as u64;
            (
                state.with_branches(
                    branch::BranchViewV { generation, ..state.branch_view },
                ),
                branch::loading_effects(
                    repo,
                    state.repo_view.current_cwd,
                    generation,
                    inside_herdr,
                ),
            )
        },
        None => (state, Seq::empty()),
    }
}

/// What the events of a tick lead to, in this order: pending removals are saved, the lists
/// are filtered, remotes are loaded, branches are loaded anew and removals are taken up.
/// Nothing where folders do not tell some repositories apart.
pub open spec fn after_tick(state: AppStateV, changes: TickChangesV, inside_herdr: bool) -> Option<
    (AppStateV, Seq<EffectV>),
> {
    match repo::after_changes(state, changes) {
        Some((listed, _, repo_request)) => {
            let (filtered, branch_request) = after_branch_changes(listed, changes);
            let (refreshed, loads) = after_refresh(
                filtered,
                changes.refresh_branch,
                inside_herdr,
            );
            let (resumed, removals) = if changes.resume_pending_deletes {
                delete::after_resume(refreshed)
            } else {
                (refreshed, Seq::empty())
            };
            let saves = if changes.save_pending {
                seq![EffectV::SavePending]
            } else {
                Seq::empty()
            };
            let remotes = match changes.start_remote_loading {
                Some(loading) => seq![EffectV::LoadRemotes(loading)],
                None => Seq::empty(),
            };
            Some(
                (
                    resumed,
                    saves + filter_effects(repo_request) + filter_effects(branch_request)
                        + remotes + loads + removals,
                ),
            )
        },
        None => None,
    }
}

fn add_effects(effects: &mut Vec<Effect>, more: Vec<Effect>)
    ensures
        final(effects).deep_view() == old(effects).deep_view() + more.deep_view(),
{
    let ghost start = effects.deep_view();
    let ghost added = more.deep_view();
    let mut more = more;
    effects.append(&mut more);
    assert(effects.deep_view() =~= start + added);
}

fn add_filter(effects: &mut Vec<Effect>, request: Option<FilterRequest>)
    ensures
        final(effects).deep_view() == old(effects).deep_view() + filter_effects(
            request.deep_view(),
        ),
{
    let ghost start = effects.deep_view();
    match request {
        Some(request) => {
            let ghost view = request.deep_view();
            effects.push(Effect::Filter(request));
            assert(effects.deep_view() =~= start + seq![EffectV::Filter(view)]);
        },
        None => {
            assert(effects.deep_view() =~= start + Seq::<EffectV>::empty());
        },
    }
}

fn filter_branches(state: &mut AppState, changed: bool, selected: Option<BranchId>) -> (request:
    Option<FilterRequest>)
    ensures
        ({
            let start = old(state).deep_view();
            let (view, asked) = start.branch_view.refiltered(selected.deep_view());
            if changed {
                final(state).deep_view() == start.with_branches(view) && request.deep_view()
                    == asked
            } else {
                final(state).deep_view() == start && request is None
            }
        }),
{
    if changed {
        branch::queue_filter(state, selected)
    } else {
        None
    }
}

fn refresh_branches(state: &mut AppState, repo: Option<Repo>, inside_herdr: bool) -> (effects: Vec<
    Effect,
>)
    requires
        repo is Some ==> old(state).branch_view.generation < u64::MAX,
    ensures
        (final(state).deep_view(), effects.deep_view()) == after_refresh(
            old(state).deep_view(),
            repo.deep_view(),
            inside_herdr,
        ),
{
    match repo {
        Some(repo) => branch::refresh(state, repo, inside_herdr),
        None => {
            let none: Vec<Effect> = Vec::new();
            assert(none.deep_view() =~= Seq::<EffectV>::empty());
            none
        },
    }
}

fn resume_removals(state: &mut AppState, wanted: bool) -> (effects: Vec<Effect>)
    ensures
        (final(state).deep_view(), effects.deep_view()) == if wanted {
            delete::after_resume(old(state).deep_view())
        } else {
            (old(state).deep_view(), Seq::empty())
        },
{
    if wanted {
        delete::resume(state)
    } else {
        let none: Vec<Effect> = Vec::new();
        assert(none.deep_view() =~= Seq::<EffectV>::empty());
        none
    }
}

fn remote_effects(loading: Option<RemoteLoading>) -> (effects: Vec<Effect>)
    ensures
        effects.deep_view() == match loading.deep_view() {
            Some(loading) => seq![EffectV::LoadRemotes(loading)],
            None => Seq::empty(),
        },
{
    let mut effects: Vec<Effect> = Vec::new();
    match loading {
        Some(loading) => {
            let ghost view = loading.deep_view();
            effects.push(Effect::LoadRemotes(loading));
            assert(effects.deep_view() =~= seq![EffectV::LoadRemotes(view)]);
        },
        None => {
            assert(effects.deep_view() =~= Seq::<EffectV>::empty());
        },
    }
    effects
}

fn save_effects(wanted: bool) -> (effects: Vec<Effect>)
    ensures
        effects.deep_view() == if wanted {
            seq![EffectV::SavePending]
        } else {
            Seq::empty()
        },
{
    let mut effects: Vec<Effect> = Vec::new();
    if wanted {
        effects.push(Effect::SavePending);
        assert(effects.deep_view() =~= seq![EffectV::SavePending]);
    } else {
        assert(effects.deep_view() =~= Seq::<EffectV>::empty());
    }
    effects
}

/// Takes in what the events of a tick amount to. What is to be done is handed back.
#[verifier::spinoff_prover]
pub fn finish_tick(state: &mut AppState, changes: TickChanges, inside_herdr: bool) -> (effects:
    Result<Vec<Effect>, repo::AmbiguousRepos>)
    requires
        changes.refresh_branch is Some ==> old(state).branch_view.generation < u64::MAX,
    ensures
        match after_tick(old(state).deep_view(), changes.deep_view(), inside_herdr) {
            Some((state_after, asked)) => final(state).deep_view() == state_after && effects is Ok
                && effects->Ok_0.deep_view() == asked,
            None => effects is Err,
        },
{
    let mut changes = changes;
    let mut effects = save_effects(changes.save_pending);
    match repo::apply_changes(state, &mut changes) {
        Ok(request) => add_filter(&mut effects, request),
        Err(error) => return Err(error),
    }
    let request = filter_branches(
        state,
        changes.branches_changed,
        changes.pinned_branch_selection,
    );
    add_filter(&mut effects, request);
    add_effects(&mut effects, remote_effects(changes.start_remote_loading));
    let loads = refresh_branches(state, changes.refresh_branch, inside_herdr);
    add_effects(&mut effects, loads);
    let removals = resume_removals(state, changes.resume_pending_deletes);
    add_effects(&mut effects, removals);
    Ok(effects)
}

/// Whatever an event does, the help below which it arrives stays as it was, unless the event
/// answers a search in the help.
#[verifier::rlimit(60)]
pub proof fn lemma_events_leave_help_alone(
    event: AppEvent,
    state: AppStateV,
    changes: TickChangesV,
    now: u64,
)
    requires
        !(event is FilterCompleted),
    ensures
        after_event(event, state, changes, now).0.help_overlay == state.help_overlay,
{
}

} // verus!
