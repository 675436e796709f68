//! Creating a branch.

use crate::branches::{BranchEntry, BranchEntryV};
use crate::effects::{Effect, EffectV, FilterItem, FilterItemV, FilterRequest, FilterRequestV};
use crate::event::{AppEvent, FilterKey, FilterKeyV, FilterTarget};
use crate::input::{all_rows, every_row, Edit, SearchableList, SearchableListV};
use crate::path::{equal_paths, same_path};
use crate::rows::{advance, apply_matches, next_generation, or_first, selected_item, selected_key, with_matches};
use crate::screens::branch::{after_open, keep_locals, local_rows, name_list, names_of, open, BranchContext, BranchContextV};
use crate::state::{AppState, AppStateV, Mode, ModeV};
use crate::text::{concat, concat3, same_text};
use crate::toasts::ToastKind;
use vstd::prelude::*;
use vstd::string::*;

verus! {

/// The choice of the branch that a new one starts from.
#[derive(Debug, PartialEq, Eq)]
pub struct BaseBranchSelection {
    pub new_name: String,
    pub bases: Vec<String>,
    pub list: SearchableList,
}

#[verifier::ext_equal]
pub struct BaseBranchSelectionV {
    pub new_name: Seq<char>,
    pub bases: Seq<Seq<char>>,
    pub list: SearchableListV,
}

impl DeepView for BaseBranchSelection {
    type V = BaseBranchSelectionV;

    open spec fn deep_view(&self) -> BaseBranchSelectionV {
        BaseBranchSelectionV {
            new_name: self.new_name@,
            bases: self.bases.deep_view(),
            list: self.list.deep_view(),
        }
    }
}

#[derive(Debug, Clone, Copy, PartialEq, Eq, Structural)]
pub struct NewBranchState {
    pub filter_generation: u64,
}

impl Default for NewBranchState {
    fn default() -> (state: Self)
        ensures
            state.filter_generation == 0,
    {
        NewBranchState { filter_generation: 0 }
    }
}

/// Where a typed branch name leads: to the branch of that name, or to a new one.
#[derive(Debug, PartialEq, Eq)]
pub enum NewBranchRoute {
    Existing(BranchEntry),
    Validate { context: BranchContext, name: String },
}

#[verifier::ext_equal]
pub enum NewBranchRouteV {
    Existing(BranchEntryV),
    Validate { context: BranchContextV, name: Seq<char> },
}

impl DeepView for NewBranchRoute {
    type V = NewBranchRouteV;

    open spec fn deep_view(&self) -> NewBranchRouteV {
        match self {
            NewBranchRoute::Existing(branch) => NewBranchRouteV::Existing(branch.deep_view()),
            NewBranchRoute::Validate { context, name } => NewBranchRouteV::Validate {
                context: context.deep_view(),
                name: name@,
            },
        }
    }
}

/// The first local branch of a name.
pub open spec fn local_named(entries: Seq<BranchEntryV>, name: Seq<char>) -> Option<BranchEntryV>
    decreases entries.len(),
{
    if entries.len() == 0 {
        None
    } else if entries[0].remote is None && entries[0].name == name {
        Some(entries[0])
    } else {
        local_named(entries.drop_first(), name)
    }
}

fn find_local<'a>(entries: &'a Vec<BranchEntry>, name: &str) -> (found: Option<&'a BranchEntry>)
    ensures
        found.deep_view() == local_named(entries.deep_view(), name@),
{
    let ghost all = entries.deep_view();
    let mut i: usize = 0;
    assert(all.skip(0) =~= all);
    while i < entries.len()
        invariant
            i <= entries.len(),
            all == entries.deep_view(),
            local_named(all, name@) == local_named(all.skip(i as int), name@),
        decreases entries.len() - i,
    {
        proof {
            assert(all.skip(i as int)[0] == entries@[i as int].deep_view());
            assert(all.skip(i as int).drop_first() =~= all.skip(i + 1));
        }
        if entries[i].remote.is_none() && same_text(entries[i].name.as_str(), name) {
            return Some(&entries[i]);
        }
        i = i + 1;
    }
    assert(all.skip(i as int) =~= Seq::<BranchEntryV>::empty());
    None
}

/// Where the typed name leads, or why it leads nowhere.
pub open spec fn route_of(state: AppStateV) -> Result<NewBranchRouteV, Seq<char>> {
    let view = state.branch_view;
    match state.mode {
        ModeV::BranchSelect(context) => if view.loading {
            Err("Branches are still loading"@)
        } else if view.list.input.text.len() == 0 {
            Err("Type a branch name first"@)
        } else {
            match local_named(view.entries, view.list.input.text) {
                Some(branch) => Ok(NewBranchRouteV::Existing(branch)),
                None => Ok(NewBranchRouteV::Validate { context, name: view.list.input.text }),
            }
        },
        _ => Err("New branches can only be created from the branch view"@),
    }
}

pub open spec fn route_view(found: Result<NewBranchRoute, &'static str>) -> Result<
    NewBranchRouteV,
    Seq<char>,
> {
    match found {
        Ok(route) => Ok(route.deep_view()),
        Err(message) => Err(message@),
    }
}

/// Where the typed name leads.
pub fn route(state: &AppState) -> (found: Result<NewBranchRoute, &'static str>)
    ensures
        route_view(found) == route_of(state.deep_view()),
{
    let context = match &state.mode {
        Mode::BranchSelect(context) => context,
        _ => return Err("New branches can only be created from the branch view"),
    };
    if state.branch_view.loading {
        return Err("Branches are still loading");
    }
    let name = &state.branch_view.list.input.text;
    if name.as_str().is_empty() {
        return Err("Type a branch name first");
    }
    match find_local(&state.branch_view.entries, name.as_str()) {
        Some(branch) => Ok(NewBranchRoute::Existing(branch.clone())),
        None => Ok(NewBranchRoute::Validate { context: context.clone(), name: name.clone() }),
    }
}

/// Starting a new branch: an existing one is opened, another name is validated first.
pub open spec fn after_start(state: AppStateV, inside_herdr: bool) -> (AppStateV, Option<EffectV>) {
    match route_of(state) {
        Err(message) => (state.told(ToastKind::Error, message), None),
        Ok(NewBranchRouteV::Existing(branch)) => after_open(state, branch, inside_herdr),
        Ok(NewBranchRouteV::Validate { context, name }) => (
            AppStateV { mode: ModeV::ValidatingNewBranch { context, name }, ..state },
            Some(
                EffectV::ValidateBranchName { repo_path: context.repo_path, branch_name: name },
            ),
        ),
    }
}

/// Starts a new branch.
pub fn start(state: &mut AppState, inside_herdr: bool) -> (effect: Option<Effect>)
    ensures
        (final(state).deep_view(), effect.deep_view()) == after_start(
            old(state).deep_view(),
            inside_herdr,
        ),
{
    match route(state) {
        Err(message) => {
            state.push_toast(ToastKind::Error, message);
            None
        },
        Ok(NewBranchRoute::Existing(branch)) => open(state, &branch, inside_herdr),
        Ok(NewBranchRoute::Validate { context, name }) => {
            let repo_path = context.repo_path.clone();
            let branch_name = name.clone();
            state.mode = Mode::ValidatingNewBranch { context, name };
            Some(Effect::ValidateBranchName { repo_path, branch_name })
        },
    }
}

impl BaseBranchSelectionV {
    /// The base that is selected.
    pub open spec fn selected(self) -> Option<Seq<char>> {
        selected_key(self.list, self.bases)
    }
}

/// Creating the branch from the selected base: what is shown, and what is asked for.
pub open spec fn after_create(state: AppStateV, inside_herdr: bool) -> (
    AppStateV,
    Option<EffectV>,
) {
    match state.mode {
        ModeV::SelectBaseBranch { context, flow } => match flow.selected() {
            Some(base) => if inside_herdr {
                (
                    AppStateV {
                        mode: ModeV::Loading {
                            message: "Creating "@ + flow.new_name + " from "@ + base + "…"@,
                            branch: Some(context),
                        },
                        ..state
                    },
                    Some(
                        EffectV::CreateBranch {
                            repo_path: context.repo_path,
                            branch_name: flow.new_name,
                            base,
                        },
                    ),
                )
            } else {
                (
                    AppStateV { mode: ModeV::BranchSelect(context), ..state }.told(
                        ToastKind::Error,
                        "not running inside herdr"@,
                    ),
                    None,
                )
            },
            None => (state, None),
        },
        _ => (state, None),
    }
}

/// Creates the branch from the selected base.
pub fn create(state: &mut AppState, inside_herdr: bool) -> (effect: Option<Effect>)
    ensures
        (final(state).deep_view(), effect.deep_view()) == after_create(
            old(state).deep_view(),
            inside_herdr,
        ),
{
    let (context, branch_name, base) = match &state.mode {
        Mode::SelectBaseBranch { context, flow } => {
            let index = match selected_item(&flow.list, flow.bases.len()) {
                Some(index) => index,
                None => return None,
            };
            (context.clone(), flow.new_name.clone(), flow.bases[index].clone())
        },
        _ => return None,
    };
    if !inside_herdr {
        state.mode = Mode::BranchSelect(context);
        state.push_toast(ToastKind::Error, "not running inside herdr");
        return None;
    }
    let head = concat3("Creating ", branch_name.as_str(), " from ");
    let message = concat3(head.as_str(), base.as_str(), "…");
    let repo_path = context.repo_path.clone();
    state.mode = Mode::Loading { message, branch: Some(context) };
    Some(Effect::CreateBranch { repo_path, branch_name, base })
}

/// Declines to choose a base. `false` where none is being chosen.
pub fn cancel(state: &mut AppState) -> (cancelled: bool)
    ensures
        (final(state).deep_view(), cancelled) == match old(state).deep_view().mode {
            ModeV::SelectBaseBranch { context, .. } => (
                AppStateV { mode: ModeV::BranchSelect(context), ..old(state).deep_view() },
                true,
            ),
            _ => (old(state).deep_view(), false),
        },
{
    let context = match &state.mode {
        Mode::SelectBaseBranch { context, .. } => context.clone(),
        _ => return false,
    };
    state.mode = Mode::BranchSelect(context);
    true
}

/// The first default branch among rows.
pub open spec fn default_place(entries: Seq<BranchEntryV>) -> Option<int>
    decreases entries.len(),
{
    if entries.len() == 0 {
        None
    } else {
        match default_place(entries.drop_last()) {
            Some(place) => Some(place),
            None => if entries.last().is_default {
                Some(entries.len() - 1)
            } else {
                None
            },
        }
    }
}

proof fn lemma_default_place_prefix(entries: Seq<BranchEntryV>, count: int)
    requires
        0 <= count <= entries.len(),
        default_place(entries.take(count)) is Some,
    ensures
        default_place(entries) == default_place(entries.take(count)),
    decreases entries.len(),
{
    if count == entries.len() {
        assert(entries.take(count) =~= entries);
    } else {
        assert(entries.drop_last().take(count) =~= entries.take(count));
        lemma_default_place_prefix(entries.drop_last(), count);
    }
}

fn find_default(entries: &Vec<BranchEntry>) -> (place: Option<usize>)
    ensures
        match default_place(entries.deep_view()) {
            Some(at) => place is Some && place->0 as int == at && at < entries@.len(),
            None => place is None,
        },
{
    let ghost all = entries.deep_view();
    let mut i: usize = 0;
    while i < entries.len()
        invariant
            i <= entries.len(),
            all == entries.deep_view(),
            default_place(all.take(i as int)) is None,
        decreases entries.len() - i,
    {
        proof {
            assert(all.take(i + 1).drop_last() =~= all.take(i as int));
            assert(all.take(i + 1).last() == entries@[i as int].deep_view());
        }
        if entries[i].is_default {
            proof {
                lemma_default_place_prefix(all, i + 1);
            }
            return Some(i);
        }
        i = i + 1;
    }
    assert(all.take(all.len() as int) =~= all);
    None
}

/// The choice of a base among local branches: the default branch is selected.
pub open spec fn base_choice(new_name: Seq<char>, locals: Seq<BranchEntryV>) -> BaseBranchSelectionV {
    BaseBranchSelectionV {
        new_name,
        bases: names_of(locals),
        list: SearchableListV {
            selected: Some(
                match default_place(locals) {
                    Some(place) => place as usize,
                    None => 0usize,
                },
            ),
            ..SearchableListV::fresh(locals.len())
        },
    }
}

/// A branch name has been validated: a good one leads to the choice of a base, unless there
/// is no local branch; otherwise the branch list comes back with an error.
pub open spec fn after_validation(
    state: AppStateV,
    context: BranchContextV,
    branch_name: Seq<char>,
    valid: bool,
    error: Option<Seq<char>>,
) -> AppStateV {
    let back = AppStateV { mode: ModeV::BranchSelect(context), ..state };
    let locals = local_rows(state.branch_view.entries);
    if error is Some {
        back.told(ToastKind::Error, error->0)
    } else if !valid {
        back.told(ToastKind::Error, "Invalid branch name: "@ + branch_name)
    } else if locals.len() == 0 {
        back.told(ToastKind::Error, "No local branches to use as base"@)
    } else {
        AppStateV {
            mode: ModeV::SelectBaseBranch { context, flow: base_choice(branch_name, locals) },
            new_branch: NewBranchState {
                filter_generation: next_generation(state.new_branch.filter_generation),
            },
            ..state
        }
    }
}

fn handle_validation(
    state: &mut AppState,
    context: BranchContext,
    branch_name: String,
    valid: bool,
    error: Option<String>,
)
    ensures
        final(state).deep_view() == after_validation(
            old(state).deep_view(),
            context.deep_view(),
            branch_name@,
            valid,
            error.deep_view(),
        ),
{
    let ghost start = state.deep_view();
    match &error {
        Some(error) => {
            state.mode = Mode::BranchSelect(context);
            state.push_toast(ToastKind::Error, error.as_str());
            return;
        },
        None => {},
    }
    if !valid {
        state.mode = Mode::BranchSelect(context);
        let message = concat("Invalid branch name: ", branch_name.as_str());
        state.push_toast(ToastKind::Error, message.as_str());
        return;
    }
    let locals = keep_locals(&state.branch_view.entries);
    assert(locals.deep_view().len() == locals@.len());
    if locals.len() == 0 {
        state.mode = Mode::BranchSelect(context);
        state.push_toast(ToastKind::Error, "No local branches to use as base");
        return;
    }
    let bases = name_list(&locals);
    let mut list = SearchableList::new(locals.len());
    list.selected = Some(
        match find_default(&locals) {
            Some(place) => place,
            None => 0,
        },
    );
    state.new_branch.filter_generation = advance(state.new_branch.filter_generation);
    let flow = BaseBranchSelection { new_name: branch_name, bases, list };
    assert(flow.deep_view() =~= base_choice(branch_name@, locals.deep_view()));
    state.mode = Mode::SelectBaseBranch { context, flow };
}

/// The matches that stand for bases.
pub open spec fn base_matches(matches: Seq<(FilterKeyV, i64)>) -> Seq<(Seq<char>, i64)>
    decreases matches.len(),
{
    if matches.len() == 0 {
        Seq::empty()
    } else {
        let before = base_matches(matches.drop_last());
        match matches.last().0 {
            FilterKeyV::Base(name) => before.push((name, matches.last().1)),
            _ => before,
        }
    }
}

pub open spec fn base_key(key: Option<FilterKeyV>) -> Option<Seq<char>> {
    match key {
        Some(FilterKeyV::Base(name)) => Some(name),
        _ => None,
    }
}

#[verifier::loop_isolation(false)]
fn matched_bases(matches: &Vec<(FilterKey, i64)>) -> (scored: Vec<(String, i64)>)
    ensures
        scored.deep_view() == base_matches(matches.deep_view()),
{
    let ghost all = matches.deep_view();
    let mut scored: Vec<(String, i64)> = Vec::new();
    let mut i: usize = 0;
    assert(scored.deep_view() =~= base_matches(all.take(0)));
    while i < matches.len()
        invariant
            i <= matches.len(),
            scored.deep_view() == base_matches(all.take(i as int)),
        decreases matches.len() - i,
    {
        let ghost before = scored.deep_view();
        proof {
            assert(all.take(i + 1).drop_last() =~= all.take(i as int));
            assert(all.take(i + 1).last() == matches@[i as int].deep_view());
        }
        match &matches[i].0 {
            FilterKey::Base(name) => {
                let pair = (name.clone(), matches[i].1);
                let ghost added = pair.deep_view();
                scored.push(pair);
                assert(scored.deep_view() =~= before.push(added));
            },
            _ => {},
        }
        i = i + 1;
    }
    assert(all.take(all.len() as int) =~= all);
    scored
}

impl AppStateV {
    /// The state with the list of bases replaced.
    pub open spec fn with_base_list(self, list: SearchableListV) -> AppStateV {
        match self.mode {
            ModeV::SelectBaseBranch { context, flow } => AppStateV {
                mode: ModeV::SelectBaseBranch {
                    context,
                    flow: BaseBranchSelectionV { list, ..flow },
                },
                ..self
            },
            _ => self,
        }
    }
}

/// What the creation of a branch does with an event: nothing where the event is not its own.
pub open spec fn after_event(event: AppEvent, state: AppStateV) -> Option<AppStateV> {
    let rules = state.repo_view.path_rules;
    match event {
        AppEvent::FilterCompleted { target, generation, matches, selected } => if target
            == FilterTarget::Bases && generation == state.new_branch.filter_generation {
            Some(
                match state.mode {
                    ModeV::SelectBaseBranch { flow, .. } => state.with_base_list(
                        with_matches::<String>(
                            flow.list,
                            flow.bases,
                            base_matches(matches.deep_view()),
                            base_key(selected.deep_view()),
                            rules,
                        ),
                    ),
                    _ => state,
                },
            )
        } else {
            None
        },
        AppEvent::BranchNameValidated { repo_path, branch_name, valid, error } => match state.mode {
            ModeV::ValidatingNewBranch { context, name } => if same_path(
                context.repo_path,
                repo_path@,
                rules,
            ) && name == branch_name@ {
                Some(
                    after_validation(state, context, branch_name@, valid, error.deep_view()),
                )
            } else {
                None
            },
            _ => None,
        },
        _ => None,
    }
}

/// Takes an event in, or hands it back where it is not about a new branch.
pub fn handle_event(event: AppEvent, state: &mut AppState) -> (passed: Option<AppEvent>)
    ensures
        match after_event(event, old(state).deep_view()) {
            Some(state_after) => passed is None && final(state).deep_view() == state_after,
            None => passed == Some(event) && *final(state) == *old(state),
        },
{
    let rules = state.repo_view.path_rules;
    match event {
        AppEvent::FilterCompleted { target, generation, matches, selected } => {
            if target != FilterTarget::Bases || generation
                != state.new_branch.filter_generation {
                return Some(AppEvent::FilterCompleted { target, generation, matches, selected });
            }
            if let Mode::SelectBaseBranch { flow, .. } = &mut state.mode {
                let scored = matched_bases(&matches);
                let requested: Option<&String> = match &selected {
                    Some(FilterKey::Base(name)) => Some(name),
                    _ => None,
                };
                apply_matches(&mut flow.list, &flow.bases, &scored, requested, rules);
            }
            None
        },
        AppEvent::BranchNameValidated { repo_path, branch_name, valid, error } => {
            let awaited: Option<BranchContext> = match &state.mode {
                Mode::ValidatingNewBranch { context, name } => if equal_paths(
                    &context.repo_path,
                    &repo_path,
                    rules,
                ) && same_text(name.as_str(), branch_name.as_str()) {
                    Some(context.clone())
                } else {
                    None
                },
                _ => None,
            };
            match awaited {
                Some(context) => {
                    handle_validation(state, context, branch_name, valid, error);
                    None
                },
                None => Some(
                    AppEvent::BranchNameValidated { repo_path, branch_name, valid, error },
                ),
            }
        },
        other => Some(other),
    }
}

impl AppStateV {
    /// The selection among the bases moved.
    pub open spec fn base_moved(self, delta: int) -> AppStateV {
        match self.mode {
            ModeV::SelectBaseBranch { flow, .. } => self.with_base_list(flow.list.moved(delta)),
            _ => self,
        }
    }

    /// The list of bases after its query changed, and what is asked of the filter: an empty
    /// query needs none.
    pub open spec fn bases_refiltered(self) -> (AppStateV, Option<FilterRequestV>) {
        let generation = next_generation(self.new_branch.filter_generation);
        let next = AppStateV {
            new_branch: NewBranchState { filter_generation: generation },
            ..self
        };
        match self.mode {
            ModeV::SelectBaseBranch { flow, .. } => if flow.list.input.text.len() == 0 {
                (
                    next.with_base_list(
                        SearchableListV {
                            filtered: all_rows(flow.bases.len()),
                            selected: or_first(None, flow.bases.len()),
                            scroll_offset: 0,
                            ..flow.list
                        },
                    ),
                    None,
                )
            } else {
                (
                    next,
                    Some(
                        FilterRequestV {
                            target: FilterTarget::Bases,
                            generation,
                            query: flow.list.input.text,
                            items: base_items(flow.bases),
                            selected: None,
                        },
                    ),
                )
            },
            _ => (next, None),
        }
    }

    /// The query for a base changed.
    pub open spec fn base_edited(self, change: Edit) -> AppStateV {
        match self.mode {
            ModeV::SelectBaseBranch { flow, .. } => self.with_base_list(
                SearchableListV { input: flow.list.input.edited(change), ..flow.list },
            ),
            _ => self,
        }
    }
}

pub open spec fn base_items(bases: Seq<Seq<char>>) -> Seq<FilterItemV> {
    bases.map_values(|base: Seq<char>| FilterItemV { key: FilterKeyV::Base(base), text: base })
}

fn filter_items(bases: &Vec<String>) -> (items: Vec<FilterItem>)
    ensures
        items.deep_view() == base_items(bases.deep_view()),
{
    let mut items: Vec<FilterItem> = Vec::new();
    let mut i: usize = 0;
    while i < bases.len()
        invariant
            i <= bases.len(),
            items@.len() == i,
            forall|k: int|
                0 <= k < i ==> (#[trigger] items@[k]).deep_view() == (FilterItemV {
                    key: FilterKeyV::Base(bases@[k]@),
                    text: bases@[k]@,
                }),
        decreases bases.len() - i,
    {
        items.push(FilterItem { key: FilterKey::Base(bases[i].clone()), text: bases[i].clone() });
        i = i + 1;
    }
    assert(items.deep_view() =~= base_items(bases.deep_view()));
    items
}

pub fn move_selection(state: &mut AppState, delta: i32)
    ensures
        final(state).deep_view() == old(state).deep_view().base_moved(delta as int),
{
    if let Mode::SelectBaseBranch { flow, .. } = &mut state.mode {
        flow.list.move_selection(delta);
    }
}

fn queue_filter(state: &mut AppState) -> (request: Option<FilterRequest>)
    ensures
        (final(state).deep_view(), request.deep_view())
            == old(state).deep_view().bases_refiltered(),
{
    let generation: u64 = advance(state.new_branch.filter_generation);
    state.new_branch.filter_generation = generation;
    if let Mode::SelectBaseBranch { flow, .. } = &mut state.mode {
        if flow.list.input.text.as_str().is_empty() {
            flow.list.filtered = every_row(flow.bases.len());
            flow.list.selected = if flow.bases.len() > 0 {
                Some(0)
            } else {
                None
            };
            flow.list.scroll_offset = 0;
            return None;
        }
        return Some(
            FilterRequest {
                target: FilterTarget::Bases,
                generation,
                query: flow.list.input.text.clone(),
                items: filter_items(&flow.bases),
                selected: None,
            },
        );
    }
    None
}

/// Changes the query for a base.
pub fn edit(state: &mut AppState, change: Edit) -> (request: Option<FilterRequest>)
    ensures
        (final(state).deep_view(), request.deep_view()) == old(state).deep_view().base_edited(
            change,
        ).bases_refiltered(),
{
    if let Mode::SelectBaseBranch { flow, .. } = &mut state.mode {
        flow.list.input.edit(change);
    }
    queue_filter(state)
}

/// Choosing a base leaves the branch list below alone.
pub proof fn lemma_base_edits_leave_branches(state: AppStateV, change: Edit)
    ensures
        state.base_edited(change).bases_refiltered().0.branch_view == state.branch_view,
        state.base_edited(change).bases_refiltered().0.repo_view == state.repo_view,
{
}

} // verus!
