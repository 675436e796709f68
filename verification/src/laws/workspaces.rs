//! Switching between workspaces.

use crate::config::keys::{chord_of, BindingMode, Command, KeysConfigV};
use crate::fuzzy::{lemma_matches_are_shown, lemma_ranked_rows_match, matched, ranked, scored};
use crate::herdr::WorkspaceInfoV;
use crate::input::Edit;
use crate::keyboard::{KeyCode, KeyEvent};
use crate::laws::lists::{highlights, shows};
use crate::laws::texts::{holds, lemma_holds_middle};
use crate::order::{in_order, not_after};
use crate::screens::workspace::{after_action, entry_of, lemma_ordered_workspaces, ordered_workspaces, picker_action, rank_workspaces, search_texts, PickerAction, PickerStepV, WorkspaceEntryV, WorkspacePickerV};
use crate::text::control_char;
use vstd::prelude::*;
use vstd::string::*;

verus! {

/// Opening switches to the workspace of the highlighted row, whatever was searched for, and
/// changes nothing else.
pub proof fn lemma_opening_switches_to_the_highlighted_row(
    state: WorkspacePickerV,
    scores: Seq<Option<i64>>,
    item: int,
)
    requires
        0 <= item < state.entries.len(),
        highlights(state.list, item),
    ensures
        after_action(PickerAction::Open, state, scores) == (
            state,
            PickerStepV::Focus(state.entries[item].workspace_id),
        ),
        state.selected() == Some(state.entries[item]),
{
}

/// A workspace is only ever switched to by opening, and it is one that a shown row stands for.
pub proof fn lemma_only_a_shown_workspace_is_switched_to(
    action: PickerAction,
    state: WorkspacePickerV,
    scores: Seq<Option<i64>>,
)
    ensures
        after_action(action, state, scores).1 matches PickerStepV::Focus(workspace_id) ==> action
            == PickerAction::Open && exists|item: int|
            0 <= item < state.entries.len() && #[trigger] shows(state.list, item) && highlights(
                state.list,
                item,
            ) && state.entries[item].workspace_id == workspace_id,
        after_action(action, state, scores).1 is Quit <==> action == PickerAction::Quit,
{
    if state.list.selected is Some && state.list.selected->0 < state.list.filtered.len() {
        let item = state.list.filtered[state.list.selected->0 as int].0 as int;
        assert(shows(state.list, item));
        assert(highlights(state.list, item));
    }
}

/// How an action changes what is typed, if it does.
pub open spec fn edit_of(action: PickerAction) -> Option<Edit> {
    match action {
        PickerAction::Insert(character) => Some(Edit::Insert(character)),
        PickerAction::Backspace => Some(Edit::Backspace),
        PickerAction::DeleteWord => Some(Edit::DeleteWord),
        PickerAction::Clear => Some(Edit::Clear),
        _ => None,
    }
}

/// Typing shows exactly the workspaces that match what is typed by then, the first row of them
/// highlighted; with nothing typed it shows all of them in their order, and highlights the
/// second one, where there is one. The workspaces themselves stay.
pub proof fn lemma_typing_shows_what_matches(
    action: PickerAction,
    state: WorkspacePickerV,
    scores: Seq<Option<i64>>,
    item: int,
)
    requires
        edit_of(action) is Some,
        state.entries.len() <= usize::MAX,
        scored(
            search_texts(state.entries),
            state.list.input.edited(edit_of(action)->0).text,
            scores,
        ),
        0 <= item < state.entries.len(),
    ensures
        ({
            let (after, step) = after_action(action, state, scores);
            let typed = state.list.input.edited(edit_of(action)->0);
            &&& step is Continue
            &&& after.entries == state.entries
            &&& after.list.input == typed
            &&& after.list.scroll_offset == 0
            &&& typed.text.len() > 0 ==> (shows(after.list, item) <==> matched(
                state.entries[item].search_text,
                typed.text,
            ))
            &&& typed.text.len() > 0 ==> after.list.selected == (if after.list.filtered.len() > 0 {
                Some(0usize)
            } else {
                None
            })
            &&& typed.text.len() == 0 ==> after.list.filtered.len() == state.entries.len()
                && after.list.filtered[item].0 == item
            &&& typed.text.len() == 0 && state.entries.len() > 1 ==> highlights(after.list, 1)
            &&& typed.text.len() == 0 && state.entries.len() == 1 ==> highlights(after.list, 0)
        }),
{
    let (after, step) = after_action(action, state, scores);
    let typed = state.list.input.edited(edit_of(action)->0);
    let texts = search_texts(state.entries);
    assert(texts[item] == state.entries[item].search_text);
    let rows = ranked(texts, typed.text, scores);
    assert(after.list.filtered == rows);
    if typed.text.len() > 0 {
        lemma_ranked_rows_match(texts, typed.text, scores);
        if matched(texts[item], typed.text) {
            lemma_matches_are_shown(texts, typed.text, scores, item);
            let i = choose|i: int|
                0 <= i < ranked(texts, typed.text, scores).len() && (#[trigger] ranked(
                    texts,
                    typed.text,
                    scores,
                )[i]).0 == item;
            assert(after.list.filtered[i].0 == item);
        }
        if shows(after.list, item) {
            let row = choose|row: int|
                0 <= row < after.list.filtered.len() && (#[trigger] after.list.filtered[row]).0
                    == item;
            assert(rows[row].0 == item);
        }
    } else if state.entries.len() > 1 {
        assert(rows[1].0 == 1);
    }
}

/// Whether a workspace may stand before another one: the focused one stands first, then those
/// that were focused later; one that was never focused stands last.
pub open spec fn may_precede(first: WorkspaceInfoV, second: WorkspaceInfoV) -> bool {
    if first.focused != second.focused {
        first.focused
    } else {
        match (first.last_focused_unix_ms, second.last_focused_unix_ms) {
            (Some(earlier), Some(later)) => earlier >= later,
            (Some(_), None) => true,
            (None, Some(_)) => false,
            (None, None) => true,
        }
    }
}

/// Whether a row stands for a workspace: it leads to it, is called by its repository, else by
/// its label, and can be found by its name, its branch and its label.
pub open spec fn stands_for(entry: WorkspaceEntryV, info: WorkspaceInfoV) -> bool {
    &&& entry.workspace_id == info.workspace_id
    &&& entry.branch == info.branch
    &&& entry.agent_status == info.agent_status
    &&& entry.is_current == info.focused
    &&& info.worktree matches Some(worktree) ==> entry.name == worktree.repo_name
    &&& info.worktree is None ==> entry.name == info.label
    &&& holds(entry.search_text, entry.name)
    &&& holds(entry.search_text, info.label)
    &&& info.branch matches Some(branch) ==> holds(entry.search_text, branch)
}

proof fn lemma_entry_stands_for(info: WorkspaceInfoV)
    ensures
        stands_for(entry_of(info), info),
{
    let entry = entry_of(info);
    let none = Seq::<char>::empty();
    let branch = match info.branch {
        Some(branch) => " "@ + branch,
        None => none,
    };
    let label = if info.label != entry.name {
        " "@ + info.label
    } else {
        none
    };
    lemma_holds_middle(none, entry.name, branch + label);
    assert(none + entry.name + (branch + label) =~= entry.search_text);
    if info.label != entry.name {
        lemma_holds_middle(entry.name + branch + " "@, info.label, none);
        assert(entry.name + branch + " "@ + info.label + none =~= entry.search_text);
    }
    match info.branch {
        Some(found) => {
            lemma_holds_middle(entry.name + " "@, found, label);
            assert(entry.name + " "@ + found + label =~= entry.search_text);
        },
        None => {},
    }
}

/// The list has one row for each open workspace, the focused one first and the others by when
/// they were focused last; the second row is highlighted, so that opening switches back to the
/// workspace before this one.
pub proof fn lemma_list_is_in_order_of_focus(
    state: WorkspacePickerV,
    workspaces: Seq<WorkspaceInfoV>,
) -> (places: Seq<int>)
    ensures
        ({
            let after = state.loaded(workspaces);
            &&& !after.loading
            &&& after.entries.len() == workspaces.len()
            &&& places.len() == workspaces.len()
            &&& forall|i: int|
                0 <= i < places.len() ==> 0 <= #[trigger] places[i] < workspaces.len()
                    && stands_for(after.entries[i], workspaces[places[i]])
            &&& forall|i: int, j: int|
                0 <= i < j < places.len() ==> (#[trigger] places[i]) != (#[trigger] places[j])
            &&& forall|i: int, j: int|
                0 <= i < j < places.len() ==> may_precede(
                    workspaces[#[trigger] places[i]],
                    workspaces[#[trigger] places[j]],
                )
            &&& after.list.input.text.len() == 0
            &&& 1 < workspaces.len() <= usize::MAX ==> highlights(after.list, 1)
            &&& workspaces.len() == 1 ==> highlights(after.list, 0)
        }),
{
    let places = lemma_ordered_workspaces(workspaces);
    let sorted = ordered_workspaces(workspaces);
    let after = state.loaded(workspaces);
    assert forall|i: int| 0 <= i < places.len() implies 0 <= #[trigger] places[i]
        < workspaces.len() && stands_for(after.entries[i], workspaces[places[i]]) by {
        assert(sorted[i] == workspaces[places[i]]);
        lemma_entry_stands_for(sorted[i]);
        assert(after.entries[i] == entry_of(sorted[i]));
    }
    assert forall|i: int, j: int| 0 <= i < j < places.len() implies may_precede(
        workspaces[#[trigger] places[i]],
        workspaces[#[trigger] places[j]],
    ) by {
        assert(sorted[i] == workspaces[places[i]]);
        assert(sorted[j] == workspaces[places[j]]);
        assert(in_order(sorted, not_after(rank_workspaces())));
        assert(not_after(rank_workspaces())(sorted[i], sorted[j]));
    }
    if workspaces.len() > 1 {
        assert(after.list.filtered[1].0 == 1);
    }
    places
}

/// A key does among the workspaces what it does among the repositories. A character that is bound
/// to nothing is typed, and so is one that would leave, once something is typed.
pub proof fn lemma_workspace_keys_do_their_commands(
    event: KeyEvent,
    query: Seq<char>,
    keys: KeysConfigV,
    c: char,
)
    ensures
        ({
            let chord = chord_of(event);
            let command = keys.command(BindingMode::Repo, chord);
            let action = picker_action(event, query, keys);
            let bare = !chord.modifiers.control && !chord.modifiers.alt && !chord.modifiers.shift
                && !chord.modifiers.other;
            &&& command == Some(Command::Open) ==> action == PickerAction::Open
            &&& command == Some(Command::MoveUp) ==> action == PickerAction::Move((-1) as i32)
            &&& command == Some(Command::MoveDown) ==> action == PickerAction::Move(1)
            &&& command == Some(Command::Backspace) ==> action == PickerAction::Backspace
            &&& command == Some(Command::DeleteWord) ==> action == PickerAction::DeleteWord
            &&& command == Some(Command::CursorLeft) ==> action == PickerAction::CursorLeft
            &&& command == Some(Command::CursorRight) ==> action == PickerAction::CursorRight
            &&& command == Some(Command::Clear) && query.len() > 0 ==> action
                == PickerAction::Clear
            &&& command == Some(Command::Clear) && query.len() == 0 ==> action
                == PickerAction::Quit
            &&& command == Some(Command::Quit) && (query.len() == 0 || !bare || !(
            chord.code is Char)) ==> action == PickerAction::Quit
            &&& command == Some(Command::Quit) && query.len() > 0 && bare && chord.code
                == KeyCode::Char(c) && !control_char(c) ==> action == PickerAction::Insert(c)
            &&& command is None && chord.code == KeyCode::Char(c) && !chord.modifiers.control
                && !chord.modifiers.alt && !control_char(c) ==> action == PickerAction::Insert(c)
        }),
{
}

} // verus!
