//! The list of workspaces.

use crate::config::keys::{chord_of, BindingMode, Command, KeyChord, KeysConfig, KeysConfigV};
use crate::fuzzy::{fuzzy_rank, ranked, scored, Matcher};
use crate::herdr::{HerdrError, WorkspaceInfo, WorkspaceInfoV};
use crate::input::{Edit, SearchableList, SearchableListV};
use crate::keyboard::{KeyCode, KeyEvent, KeyModifiers};
use crate::order::{by_key, chained, compare_bool, in_order, lemma_by_key_consistent, lemma_chained_consistent, lemma_consistent_total, lemma_rank_bool_consistent, lemma_rank_int_consistent, lemma_sort_map, lemma_stable_sort, not_after, rank_bool, rank_int, stable_rearrangement, stable_sort, stable_sorted, Rank};
use crate::rows::{or_first, selected_index, selected_item};
use crate::text::{concat, control_char, is_control, same_text};
use vstd::prelude::*;
use vstd::string::*;

verus! {

/// How the list ends.
#[derive(Debug, Clone, Copy, PartialEq, Eq, Structural)]
pub enum RunOutcome {
    Quit,
    Focused,
}

/// One row of the list.
#[derive(Debug, PartialEq, Eq)]
pub struct WorkspaceEntry {
    pub workspace_id: String,
    pub name: String,
    pub branch: Option<String>,
    pub agent_status: Option<String>,
    pub is_current: bool,
    pub search_text: String,
}

#[verifier::ext_equal]
pub struct WorkspaceEntryV {
    pub workspace_id: Seq<char>,
    pub name: Seq<char>,
    pub branch: Option<Seq<char>>,
    pub agent_status: Option<Seq<char>>,
    pub is_current: bool,
    pub search_text: Seq<char>,
}

impl DeepView for WorkspaceEntry {
    type V = WorkspaceEntryV;

    open spec fn deep_view(&self) -> WorkspaceEntryV {
        WorkspaceEntryV {
            workspace_id: self.workspace_id@,
            name: self.name@,
            branch: self.branch.deep_view(),
            agent_status: self.agent_status.deep_view(),
            is_current: self.is_current,
            search_text: self.search_text@,
        }
    }
}

/// What a workspace is called: by its repository, else by its label.
pub open spec fn workspace_name(info: WorkspaceInfoV) -> Seq<char> {
    match info.worktree {
        Some(worktree) => worktree.repo_name,
        None => info.label,
    }
}

/// What a search looks at: the name, the branch, and the label where it says more.
pub open spec fn workspace_search_text(info: WorkspaceInfoV) -> Seq<char> {
    let name = workspace_name(info);
    let branch = match info.branch {
        Some(branch) => " "@ + branch,
        None => Seq::empty(),
    };
    let label = if info.label != name {
        " "@ + info.label
    } else {
        Seq::empty()
    };
    name + branch + label
}

pub open spec fn entry_of(info: WorkspaceInfoV) -> WorkspaceEntryV {
    WorkspaceEntryV {
        workspace_id: info.workspace_id,
        name: workspace_name(info),
        branch: info.branch,
        agent_status: info.agent_status,
        is_current: info.focused,
        search_text: workspace_search_text(info),
    }
}

impl WorkspaceEntry {
    pub fn from_info(info: WorkspaceInfo) -> (entry: WorkspaceEntry)
        ensures
            entry.deep_view() == entry_of(info.deep_view()),
    {
        let name = match &info.worktree {
            Some(worktree) => worktree.repo_name.clone(),
            None => info.label.clone(),
        };
        let mut search_text = name.clone();
        match &info.branch {
            Some(branch) => {
                let added = concat(" ", branch.as_str());
                search_text.push_str(added.as_str());
            },
            None => {
                assert(search_text@ =~= name@ + Seq::<char>::empty());
            },
        }
        let ghost middle = search_text@;
        // Labels can be changed by hand, so they stay searchable where they say more than the
        // name of the repository.
        if !same_text(info.label.as_str(), name.as_str()) {
            let added = concat(" ", info.label.as_str());
            search_text.push_str(added.as_str());
        } else {
            assert(search_text@ =~= middle + Seq::<char>::empty());
        }
        WorkspaceEntry {
            workspace_id: info.workspace_id,
            name,
            branch: info.branch,
            agent_status: info.agent_status,
            is_current: info.focused,
            search_text,
        }
    }
}

/// When a workspace was focused last; one that never was counts as focused before all others.
pub open spec fn focus_stamp(info: WorkspaceInfoV) -> int {
    match info.last_focused_unix_ms {
        Some(stamp) => stamp as int,
        None => -1,
    }
}

/// Order of the list: the focused workspace, then those that were focused last.
pub open spec fn rank_workspaces() -> spec_fn(WorkspaceInfoV, WorkspaceInfoV) -> Rank {
    |a: WorkspaceInfoV, b: WorkspaceInfoV|
        rank_bool(!a.focused, !b.focused).or_else_spec(rank_int(focus_stamp(b), focus_stamp(a)))
}

pub open spec fn ordered_workspaces(workspaces: Seq<WorkspaceInfoV>) -> Seq<WorkspaceInfoV> {
    stable_sorted(workspaces, not_after(rank_workspaces()))
}

/// The list is in order; workspaces that tie keep the order in which they were reported.
pub proof fn lemma_ordered_workspaces(workspaces: Seq<WorkspaceInfoV>) -> (places: Seq<int>)
    ensures
        in_order(ordered_workspaces(workspaces), not_after(rank_workspaces())),
        stable_rearrangement(
            workspaces,
            ordered_workspaces(workspaces),
            not_after(rank_workspaces()),
            places,
        ),
{
    lemma_rank_bool_consistent();
    lemma_rank_int_consistent();
    let flag = |a: bool, b: bool| rank_bool(a, b);
    let number = |a: int, b: int| rank_int(a, b);
    let k1 = |w: WorkspaceInfoV| !w.focused;
    let k2 = |w: WorkspaceInfoV| -focus_stamp(w);
    lemma_by_key_consistent(flag, k1);
    lemma_by_key_consistent(number, k2);
    let both = chained(by_key(flag, k1), by_key(number, k2));
    lemma_chained_consistent(by_key(flag, k1), by_key(number, k2));
    assert(both =~= rank_workspaces());
    lemma_consistent_total(rank_workspaces());
    lemma_stable_sort(workspaces, not_after(rank_workspaces()))
}

fn compare_workspaces(left: &WorkspaceInfo, right: &WorkspaceInfo) -> (result: Rank)
    ensures
        result == rank_workspaces()(left.deep_view(), right.deep_view()),
{
    let by_focus = compare_bool(!left.focused, !right.focused);
    let l: i128 = match left.last_focused_unix_ms {
        Some(stamp) => stamp as i128,
        None => -1,
    };
    let r: i128 = match right.last_focused_unix_ms {
        Some(stamp) => stamp as i128,
        None => -1,
    };
    let by_stamp = if r < l {
        Rank::Less
    } else if r == l {
        Rank::Equal
    } else {
        Rank::Greater
    };
    by_focus.or_else(by_stamp)
}

/// The workspaces in the order of the list: the focused one first, then those that were
/// focused last, then the others as they were reported.
pub fn order_workspaces(workspaces: Vec<WorkspaceInfo>) -> (sorted: Vec<WorkspaceInfo>)
    ensures
        sorted.deep_view() == ordered_workspaces(workspaces.deep_view()),
{
    let ghost order = |a: WorkspaceInfo, b: WorkspaceInfo|
        not_after(rank_workspaces())(a.deep_view(), b.deep_view());
    let ghost before = workspaces@;
    let ghost image = |w: WorkspaceInfo| w.deep_view();
    let le = |a: &WorkspaceInfo, b: &WorkspaceInfo| -> (answer: bool)
        ensures
            answer == order(*a, *b),
    {
        let rank = compare_workspaces(a, b);
        rank != Rank::Greater
    };
    let sorted = stable_sort(workspaces, le, Ghost(order));
    proof {
        lemma_sort_map(before, order, image, not_after(rank_workspaces()));
        assert(before.map_values(image) =~= workspaces.deep_view());
        assert(sorted@.map_values(image) =~= sorted.deep_view());
    }
    sorted
}

#[derive(Debug, PartialEq, Eq)]
pub struct WorkspacePickerState {
    pub entries: Vec<WorkspaceEntry>,
    pub list: SearchableList,
    pub loading: bool,
    pub error: Option<String>,
}

#[verifier::ext_equal]
pub struct WorkspacePickerV {
    pub entries: Seq<WorkspaceEntryV>,
    pub list: SearchableListV,
    pub loading: bool,
    pub error: Option<Seq<char>>,
}

impl DeepView for WorkspacePickerState {
    type V = WorkspacePickerV;

    open spec fn deep_view(&self) -> WorkspacePickerV {
        WorkspacePickerV {
            entries: self.entries.deep_view(),
            list: self.list.deep_view(),
            loading: self.loading,
            error: self.error.deep_view(),
        }
    }
}

/// The selection that a list starts with: its second row, so that opening it switches back to
/// the workspace before this one.
pub open spec fn on_previous(list: SearchableListV) -> SearchableListV {
    if list.filtered.len() > 1 {
        SearchableListV { selected: Some(1usize), ..list }
    } else {
        list
    }
}

pub open spec fn search_texts(entries: Seq<WorkspaceEntryV>) -> Seq<Seq<char>> {
    entries.map_values(|entry: WorkspaceEntryV| entry.search_text)
}

impl WorkspacePickerV {
    pub open spec fn loaded(self, workspaces: Seq<WorkspaceInfoV>) -> WorkspacePickerV {
        let entries = ordered_workspaces(workspaces).map_values(
            |info: WorkspaceInfoV| entry_of(info),
        );
        WorkspacePickerV {
            entries,
            list: on_previous(SearchableListV::fresh(entries.len())),
            loading: false,
            ..self
        }
    }

    /// The list with some rows shown.
    pub open spec fn showing(self, rows: Seq<(usize, i64)>) -> WorkspacePickerV {
        let list = SearchableListV {
            filtered: rows,
            selected: or_first(None, rows.len()),
            scroll_offset: 0,
            ..self.list
        };
        WorkspacePickerV {
            list: if self.list.input.text.len() == 0 {
                on_previous(list)
            } else {
                list
            },
            ..self
        }
    }

    /// Shows the rows that match what is typed, by their scores.
    pub open spec fn refiltered(self, scores: Seq<Option<i64>>) -> WorkspacePickerV {
        self.showing(ranked(search_texts(self.entries), self.list.input.text, scores))
    }

    /// Scores that a matcher may give to the entries for what is typed.
    pub open spec fn may_score(self, scores: Seq<Option<i64>>) -> bool {
        scored(search_texts(self.entries), self.list.input.text, scores)
    }

    pub open spec fn selected(self) -> Option<WorkspaceEntryV> {
        match selected_index(self.list, self.entries.len()) {
            Some(index) => Some(self.entries[index]),
            None => None,
        }
    }

    /// The text after an edit; the rows are still those of the text before.
    pub open spec fn typed(self, change: Edit) -> WorkspacePickerV {
        WorkspacePickerV {
            list: SearchableListV { input: self.list.input.edited(change), ..self.list },
            ..self
        }
    }

    pub open spec fn edited(self, change: Edit, scores: Seq<Option<i64>>) -> WorkspacePickerV {
        self.typed(change).refiltered(scores)
    }
}

impl WorkspacePickerState {
    pub fn new() -> (state: WorkspacePickerState)
        ensures
            state.deep_view() == (WorkspacePickerV {
                entries: Seq::empty(),
                list: SearchableListV::fresh(0),
                loading: true,
                error: None,
            }),
    {
        let state = WorkspacePickerState {
            entries: Vec::new(),
            list: SearchableList::new(0),
            loading: true,
            error: None,
        };
        assert(state.entries.deep_view() =~= Seq::<WorkspaceEntryV>::empty());
        state
    }

    fn apply_default_selection(&mut self)
        ensures
            final(self).deep_view() == (WorkspacePickerV {
                list: on_previous(old(self).deep_view().list),
                ..old(self).deep_view()
            }),
    {
        if self.list.filtered.len() > 1 {
            self.list.selected = Some(1);
        }
    }

    /// Takes in the workspaces that are open.
    pub fn load(&mut self, workspaces: Vec<WorkspaceInfo>)
        ensures
            final(self).deep_view() == old(self).deep_view().loaded(workspaces.deep_view()),
    {
        let ghost start = self.deep_view();
        let ghost wanted = start.loaded(workspaces.deep_view());
        let sorted = order_workspaces(workspaces);
        let ghost all = sorted.deep_view();
        let mut entries: Vec<WorkspaceEntry> = Vec::new();
        for info in iter: sorted
            invariant
                iter.seq() == sorted@,
                all == sorted.deep_view(),
                entries@.len() == iter.index(),
                forall|k: int|
                    0 <= k < entries@.len() ==> (#[trigger] entries@[k]).deep_view() == entry_of(
                        all[k],
                    ),
        {
            entries.push(WorkspaceEntry::from_info(info));
        }
        assert(entries.deep_view() =~= wanted.entries);
        assert(entries.deep_view().len() == entries@.len());
        self.entries = entries;
        self.list = SearchableList::new(self.entries.len());
        self.apply_default_selection();
        self.loading = false;
        assert(self.deep_view() =~= wanted);
    }

    /// Takes in that the workspaces could not be listed.
    pub fn load_failed(&mut self, error: &HerdrError)
        ensures
            final(self).deep_view() == (WorkspacePickerV {
                loading: false,
                error: Some("could not list workspaces: "@ + error.deep_view().text()),
                ..old(self).deep_view()
            }),
    {
        self.loading = false;
        self.error = Some(concat("could not list workspaces: ", error.to_text().as_str()));
    }

    /// Shows some rows.
    pub fn show(&mut self, rows: Vec<(usize, i64)>)
        ensures
            final(self).deep_view() == old(self).deep_view().showing(rows@),
    {
        self.list.filtered = rows;
        self.list.selected = if self.list.filtered.len() > 0 {
            Some(0)
        } else {
            None
        };
        self.list.scroll_offset = 0;
        if self.list.input.text.as_str().is_empty() {
            self.apply_default_selection();
        }
    }

    /// Shows the rows that match what is typed.
    #[verifier::loop_isolation(false)]
    pub fn refilter(&mut self, matcher: &Matcher)
        ensures
            exists|scores: Seq<Option<i64>>|
                #[trigger] old(self).deep_view().may_score(scores) && final(self).deep_view()
                    == old(self).deep_view().refiltered(scores),
    {
        let mut texts: Vec<String> = Vec::new();
        let mut i: usize = 0;
        while i < self.entries.len()
            invariant
                i <= self.entries.len(),
                texts@.len() == i,
                forall|k: int|
                    0 <= k < i ==> (#[trigger] texts@[k])@ == self.entries@[k].search_text@,
            decreases self.entries.len() - i,
        {
            texts.push(self.entries[i].search_text.clone());
            i = i + 1;
        }
        assert(texts.deep_view() =~= search_texts(self.deep_view().entries));
        let rows = fuzzy_rank(self.list.input.text.as_str(), &texts, matcher);
        let ghost scores = choose|scores: Seq<Option<i64>>|
            #[trigger] scored(texts.deep_view(), self.list.input.text@, scores) && rows@ == ranked(
                texts.deep_view(),
                self.list.input.text@,
                scores,
            );
        assert(self.deep_view().may_score(scores));
        self.show(rows);
    }

    pub fn selected_entry(&self) -> (entry: Option<&WorkspaceEntry>)
        ensures
            entry.deep_view() == self.deep_view().selected(),
    {
        match selected_item(&self.list, self.entries.len()) {
            Some(index) => Some(&self.entries[index]),
            None => None,
        }
    }
}

impl Default for WorkspacePickerState {
    fn default() -> (state: Self)
        ensures
            state.deep_view() == (WorkspacePickerV {
                entries: Seq::empty(),
                list: SearchableListV::fresh(0),
                loading: true,
                error: None,
            }),
    {
        WorkspacePickerState::new()
    }
}

/// What a key does in the list of workspaces.
#[derive(Debug, Clone, Copy, PartialEq, Eq, Structural)]
pub enum PickerAction {
    Quit,
    Move(i32),
    Insert(char),
    Backspace,
    DeleteWord,
    CursorLeft,
    CursorRight,
    Clear,
    Open,
    Noop,
}

/// What a command does; one that has no use here does nothing.
pub open spec fn picker_command(command: Command, query: Seq<char>) -> PickerAction {
    match command {
        Command::Quit => PickerAction::Quit,
        Command::MoveUp => PickerAction::Move((-1) as i32),
        Command::MoveDown => PickerAction::Move(1),
        Command::Open => PickerAction::Open,
        Command::Clear => if query.len() == 0 {
            PickerAction::Quit
        } else {
            PickerAction::Clear
        },
        Command::Backspace => PickerAction::Backspace,
        Command::DeleteWord => PickerAction::DeleteWord,
        Command::CursorLeft => PickerAction::CursorLeft,
        Command::CursorRight => PickerAction::CursorRight,
        _ => PickerAction::Noop,
    }
}

/// What a key does: the bindings of the list of repositories apply. A bare character that
/// would quit is text once something is typed.
pub open spec fn picker_action(event: KeyEvent, query: Seq<char>, keys: KeysConfigV) -> PickerAction {
    let chord = chord_of(event);
    let command = keys.command(BindingMode::Repo, chord);
    let becomes_text = command == Some(Command::Quit) && chord.modifiers
        == KeyModifiers::none_spec() && chord.code is Char && query.len() > 0;
    if command is Some && !becomes_text {
        picker_command(command->0, query)
    } else {
        match chord.code {
            KeyCode::Char(character) => if !chord.modifiers.control && !chord.modifiers.alt
                && !control_char(character) {
                PickerAction::Insert(character)
            } else {
                PickerAction::Noop
            },
            _ => PickerAction::Noop,
        }
    }
}

/// What a key does in the list of workspaces.
pub fn resolve_action(key: KeyEvent, query: &str, keys: &KeysConfig) -> (action: PickerAction)
    ensures
        action == picker_action(key, query@, keys.deep_view()),
{
    let chord = KeyChord::from_event(key);
    match keys.command_for(BindingMode::Repo, chord) {
        Some(command) => {
            let bare = match chord.code {
                KeyCode::Char(_) => chord.modifiers == KeyModifiers::none(),
                _ => false,
            };
            if !(command == Command::Quit && bare && !query.is_empty()) {
                return match command {
                    Command::Quit => PickerAction::Quit,
                    Command::MoveUp => PickerAction::Move(-1),
                    Command::MoveDown => PickerAction::Move(1),
                    Command::Open => PickerAction::Open,
                    Command::Clear => if query.is_empty() {
                        PickerAction::Quit
                    } else {
                        PickerAction::Clear
                    },
                    Command::Backspace => PickerAction::Backspace,
                    Command::DeleteWord => PickerAction::DeleteWord,
                    Command::CursorLeft => PickerAction::CursorLeft,
                    Command::CursorRight => PickerAction::CursorRight,
                    _ => PickerAction::Noop,
                };
            }
        },
        None => {},
    }
    match chord.code {
        KeyCode::Char(character) => if !chord.modifiers.control && !chord.modifiers.alt
            && !is_control(character) {
            PickerAction::Insert(character)
        } else {
            PickerAction::Noop
        },
        _ => PickerAction::Noop,
    }
}

/// What the list asks for after an action.
#[derive(Debug, PartialEq, Eq)]
pub enum PickerStep {
    Continue,
    Quit,
    /// A workspace is to be focused.
    Focus(String),
}

#[verifier::ext_equal]
pub enum PickerStepV {
    Continue,
    Quit,
    Focus(Seq<char>),
}

impl DeepView for PickerStep {
    type V = PickerStepV;

    open spec fn deep_view(&self) -> PickerStepV {
        match self {
            PickerStep::Continue => PickerStepV::Continue,
            PickerStep::Quit => PickerStepV::Quit,
            PickerStep::Focus(workspace_id) => PickerStepV::Focus(workspace_id@),
        }
    }
}

/// How an action changes what is typed; nothing where it does not.
pub open spec fn action_edit(action: PickerAction) -> Option<Edit> {
    match action {
        PickerAction::Insert(character) => Some(Edit::Insert(character)),
        PickerAction::Backspace => Some(Edit::Backspace),
        PickerAction::DeleteWord => Some(Edit::DeleteWord),
        PickerAction::Clear => Some(Edit::Clear),
        _ => None,
    }
}

/// What an action does in the list of workspaces, given the scores of the entries for the
/// text that it leaves.
pub open spec fn after_action(
    action: PickerAction,
    state: WorkspacePickerV,
    scores: Seq<Option<i64>>,
) -> (WorkspacePickerV, PickerStepV) {
    let same = PickerStepV::Continue;
    match action {
        PickerAction::Quit => (state, PickerStepV::Quit),
        PickerAction::Move(delta) => (
            WorkspacePickerV { list: state.list.moved(delta as int), ..state },
            same,
        ),
        PickerAction::Insert(character) => (state.edited(Edit::Insert(character), scores), same),
        PickerAction::Backspace => (state.edited(Edit::Backspace, scores), same),
        PickerAction::DeleteWord => (state.edited(Edit::DeleteWord, scores), same),
        PickerAction::Clear => (state.edited(Edit::Clear, scores), same),
        PickerAction::CursorLeft => (
            WorkspacePickerV {
                list: SearchableListV { input: state.list.input.moved_left(), ..state.list },
                ..state
            },
            same,
        ),
        PickerAction::CursorRight => (
            WorkspacePickerV {
                list: SearchableListV { input: state.list.input.moved_right(), ..state.list },
                ..state
            },
            same,
        ),
        PickerAction::Open => (
            state,
            match state.selected() {
                Some(entry) => PickerStepV::Focus(entry.workspace_id),
                None => same,
            },
        ),
        PickerAction::Noop => (state, same),
    }
}

fn edit(state: &mut WorkspacePickerState, change: Edit, matcher: &Matcher)
    ensures
        exists|scores: Seq<Option<i64>>|
            #[trigger] old(state).deep_view().typed(change).may_score(scores)
                && final(state).deep_view() == old(state).deep_view().edited(change, scores),
{
    let ghost before = state.deep_view();
    state.list.input.edit(change);
    assert(state.deep_view() =~= before.typed(change));
    state.refilter(matcher);
}

/// Carries an action out in the list of workspaces.
pub fn process_action(
    action: PickerAction,
    state: &mut WorkspacePickerState,
    matcher: &Matcher,
) -> (step: PickerStep)
    ensures
        match action_edit(action) {
            Some(change) => exists|scores: Seq<Option<i64>>|
                #[trigger] old(state).deep_view().typed(change).may_score(scores) && (
                final(state).deep_view(), step.deep_view()) == after_action(
                    action,
                    old(state).deep_view(),
                    scores,
                ),
            None => (final(state).deep_view(), step.deep_view()) == after_action(
                action,
                old(state).deep_view(),
                Seq::empty(),
            ),
        },
{
    match action {
        PickerAction::Quit => PickerStep::Quit,
        PickerAction::Move(delta) => {
            state.list.move_selection(delta);
            PickerStep::Continue
        },
        PickerAction::Insert(character) => {
            edit(state, Edit::Insert(character), matcher);
            PickerStep::Continue
        },
        PickerAction::Backspace => {
            edit(state, Edit::Backspace, matcher);
            PickerStep::Continue
        },
        PickerAction::DeleteWord => {
            edit(state, Edit::DeleteWord, matcher);
            PickerStep::Continue
        },
        PickerAction::Clear => {
            edit(state, Edit::Clear, matcher);
            PickerStep::Continue
        },
        PickerAction::CursorLeft => {
            state.list.input.cursor_left();
            PickerStep::Continue
        },
        PickerAction::CursorRight => {
            state.list.input.cursor_right();
            PickerStep::Continue
        },
        PickerAction::Open => match state.selected_entry() {
            Some(entry) => PickerStep::Focus(entry.workspace_id.clone()),
            None => PickerStep::Continue,
        },
        PickerAction::Noop => PickerStep::Continue,
    }
}

/// Takes in how focusing the selected workspace went: a failure is shown and the list stays.
pub fn focus_finished(state: &mut WorkspacePickerState, reply: Result<(), HerdrError>) -> (outcome:
    Option<RunOutcome>)
    ensures
        match reply {
            Ok(_) => outcome == Some(RunOutcome::Focused) && final(state).deep_view() == old(
                state,
            ).deep_view(),
            Err(error) => outcome is None && final(state).deep_view() == (WorkspacePickerV {
                error: Some("could not focus workspace: "@ + error.deep_view().text()),
                ..old(state).deep_view()
            }),
        },
{
    match reply {
        Ok(_) => Some(RunOutcome::Focused),
        Err(error) => {
            state.error = Some(concat("could not focus workspace: ", error.to_text().as_str()));
            None
        },
    }
}

} // verus!
