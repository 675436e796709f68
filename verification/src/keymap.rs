//! What a key does on each screen.

use crate::config::keys::{bound, chord_of, mode_of, Command, KeyChord, KeysConfig, KeysConfigV};
use crate::keyboard::{Action, KeyCode, KeyEvent, KeyModifiers};
use crate::state::{AppState, AppStateV, Mode, ModeV};
use crate::text::{ascii_graphic, is_ascii_graphic};
use vstd::prelude::*;
use vstd::string::*;

verus! {

/// What is typed on the screen that is shown; a screen without a search has nothing typed.
pub open spec fn query_of(state: AppStateV) -> Seq<char> {
    match state.mode {
        ModeV::RepoSelect => state.repo_view.list.input.text,
        ModeV::BranchSelect(_) => state.branch_view.list.input.text,
        ModeV::SelectBaseBranch { flow, .. } => flow.list.input.text,
        _ => Seq::empty(),
    }
}

fn is_query_empty(state: &AppState) -> (answer: bool)
    ensures
        answer == (query_of(state.deep_view()).len() == 0),
{
    match &state.mode {
        Mode::RepoSelect => state.repo_view.list.input.text.as_str().is_empty(),
        Mode::BranchSelect(_) => state.branch_view.list.input.text.as_str().is_empty(),
        Mode::SelectBaseBranch { flow, .. } => flow.list.input.text.as_str().is_empty(),
        _ => true,
    }
}

/// What a command does while the help is shown: it searches and moves in the help alone.
pub open spec fn help_action(command: Command) -> Option<Action> {
    match command {
        Command::MoveUp => Some(Action::MoveSelection((-1) as i32)),
        Command::MoveDown => Some(Action::MoveSelection(1)),
        Command::Clear => Some(Action::ClearQuery),
        Command::Backspace => Some(Action::Backspace),
        Command::DeleteWord => Some(Action::DeleteWord),
        Command::CursorLeft => Some(Action::CursorLeft),
        Command::CursorRight => Some(Action::CursorRight),
        _ => None,
    }
}

pub fn help_command_to_action(command: Command) -> (action: Option<Action>)
    ensures
        action == help_action(command),
{
    match command {
        Command::MoveUp => Some(Action::MoveSelection(-1)),
        Command::MoveDown => Some(Action::MoveSelection(1)),
        Command::Clear => Some(Action::ClearQuery),
        Command::Backspace => Some(Action::Backspace),
        Command::DeleteWord => Some(Action::DeleteWord),
        Command::CursorLeft => Some(Action::CursorLeft),
        Command::CursorRight => Some(Action::CursorRight),
        _ => None,
    }
}

/// What opening means on each screen. A branch name that matches nothing is a new branch.
pub open spec fn open_action(state: AppStateV) -> Option<Action> {
    match state.mode {
        ModeV::RepoSelect => Some(Action::OpenRepo),
        ModeV::BranchSelect(_) => if query_of(state).len() > 0
            && state.branch_view.list.filtered.len() == 0 {
            Some(Action::StartNewBranch)
        } else {
            Some(Action::OpenBranch)
        },
        ModeV::SelectBaseBranch { .. } => Some(Action::CreateNewBranch),
        ModeV::ConfirmWorktreeDelete(flow) => if flow.target.in_progress {
            None
        } else {
            Some(Action::ConfirmDeleteWorktree)
        },
        _ => None,
    }
}

/// What going back means: what is typed goes first.
pub open spec fn back_action(state: AppStateV) -> Option<Action> {
    if query_of(state).len() > 0 {
        Some(Action::ClearQuery)
    } else {
        match state.mode {
            ModeV::BranchSelect(_) => Some(Action::BackToRepos),
            ModeV::SelectBaseBranch { .. } => Some(Action::CancelOverlay),
            ModeV::ConfirmWorktreeDelete(_) => Some(Action::CancelOverlay),
            _ => None,
        }
    }
}

pub open spec fn only_if(condition: bool, action: Action) -> Option<Action> {
    if condition {
        Some(action)
    } else {
        None
    }
}

/// What a command does on the screen that is shown.
pub open spec fn action_of(command: Command, state: AppStateV) -> Option<Action> {
    match command {
        Command::Noop => None,
        Command::Quit => Some(Action::Quit),
        Command::Help => Some(Action::ShowHelp),
        Command::DismissToast => only_if(state.toasts.len() > 0, Action::DismissToast),
        Command::MoveUp => Some(Action::MoveSelection((-1) as i32)),
        Command::MoveDown => Some(Action::MoveSelection(1)),
        Command::Open => open_action(state),
        Command::BranchesView => only_if(state.mode is RepoSelect, Action::OpenBranches),
        Command::Back => back_action(state),
        Command::NewBranch => only_if(state.mode is BranchSelect, Action::StartNewBranch),
        Command::Delete => only_if(state.mode is BranchSelect, Action::DeleteWorktree),
        Command::Clear => if query_of(state).len() > 0 {
            Some(Action::ClearQuery)
        } else {
            only_if(state.mode is RepoSelect, Action::Quit)
        },
        Command::Backspace => Some(Action::Backspace),
        Command::DeleteWord => Some(Action::DeleteWord),
        Command::CursorLeft => Some(Action::CursorLeft),
        Command::CursorRight => Some(Action::CursorRight),
    }
}

/// What a command does on the screen that is shown.
pub fn command_to_action(command: Command, state: &AppState) -> (action: Option<Action>)
    ensures
        action == action_of(command, state.deep_view()),
{
    match command {
        Command::Noop => None,
        Command::Quit => Some(Action::Quit),
        Command::Help => Some(Action::ShowHelp),
        Command::DismissToast => if state.toasts.len() > 0 {
            Some(Action::DismissToast)
        } else {
            None
        },
        Command::MoveUp => Some(Action::MoveSelection(-1)),
        Command::MoveDown => Some(Action::MoveSelection(1)),
        Command::Open => match &state.mode {
            Mode::RepoSelect => Some(Action::OpenRepo),
            Mode::BranchSelect(_) => if !is_query_empty(state)
                && state.branch_view.list.filtered.len() == 0 {
                Some(Action::StartNewBranch)
            } else {
                Some(Action::OpenBranch)
            },
            Mode::SelectBaseBranch { .. } => Some(Action::CreateNewBranch),
            Mode::ConfirmWorktreeDelete(flow) => if flow.target.in_progress {
                None
            } else {
                Some(Action::ConfirmDeleteWorktree)
            },
            _ => None,
        },
        Command::BranchesView => match &state.mode {
            Mode::RepoSelect => Some(Action::OpenBranches),
            _ => None,
        },
        Command::Back => if is_query_empty(state) {
            match &state.mode {
                Mode::BranchSelect(_) => Some(Action::BackToRepos),
                Mode::SelectBaseBranch { .. } => Some(Action::CancelOverlay),
                Mode::ConfirmWorktreeDelete(_) => Some(Action::CancelOverlay),
                _ => None,
            }
        } else {
            Some(Action::ClearQuery)
        },
        Command::NewBranch => match &state.mode {
            Mode::BranchSelect(_) => Some(Action::StartNewBranch),
            _ => None,
        },
        Command::Delete => match &state.mode {
            Mode::BranchSelect(_) => Some(Action::DeleteWorktree),
            _ => None,
        },
        Command::Clear => if !is_query_empty(state) {
            Some(Action::ClearQuery)
        } else {
            match &state.mode {
                Mode::RepoSelect => Some(Action::Quit),
                _ => None,
            }
        },
        Command::Backspace => Some(Action::Backspace),
        Command::DeleteWord => Some(Action::DeleteWord),
        Command::CursorLeft => Some(Action::CursorLeft),
        Command::CursorRight => Some(Action::CursorRight),
    }
}

/// Whether a key stands for text: a printable character without modifiers.
pub open spec fn typed(chord: KeyChord) -> Option<char> {
    match chord.code {
        KeyCode::Char(character) => if chord.modifiers == KeyModifiers::none_spec() && (
        ascii_graphic(character) || character == ' ') {
            Some(character)
        } else {
            None
        },
        _ => None,
    }
}

fn typed_char(chord: KeyChord) -> (character: Option<char>)
    ensures
        character == typed(chord),
{
    match chord.code {
        KeyCode::Char(character) => if chord.modifiers == KeyModifiers::none() && (
        is_ascii_graphic(character) || character == ' ') {
            Some(character)
        } else {
            None
        },
        _ => None,
    }
}

pub open spec fn inserting(character: Option<char>) -> Option<Action> {
    match character {
        Some(character) => Some(Action::Insert(character)),
        None => None,
    }
}

/// Whether a key is a bare character that would quit although something is typed.
pub open spec fn quits_while_typing(command: Command, chord: KeyChord, query: Seq<char>) -> bool {
    command == Command::Quit && chord.modifiers == KeyModifiers::none_spec() && chord.code is Char
        && query.len() > 0
}

/// What a key does while the help is shown.
pub open spec fn key_in_help(chord: KeyChord, state: AppStateV, keys: KeysConfigV) -> Option<Action> {
    if chord == (KeyChord { code: KeyCode::Esc, modifiers: KeyModifiers::none_spec() }) {
        Some(Action::CloseHelp)
    } else {
        match keys.command(mode_of(state.mode), chord) {
            Some(command) => match help_action(command) {
                Some(action) => Some(action),
                None => inserting(typed(chord)),
            },
            None => inserting(typed(chord)),
        }
    }
}

/// What a key does: the help comes first, then notifications, then the screen. While
/// something is opened or validated, only quitting works.
pub open spec fn key_action(event: KeyEvent, state: AppStateV, keys: KeysConfigV) -> Option<Action> {
    let chord = chord_of(event);
    let command = keys.command(mode_of(state.mode), chord);
    if state.help_overlay is Some {
        key_in_help(chord, state, keys)
    } else if state.toasts.len() > 0 && bound(keys.general, chord) == Some(Command::DismissToast) {
        Some(Action::DismissToast)
    } else if state.mode is Loading || state.mode is ValidatingNewBranch {
        only_if(command == Some(Command::Quit), Action::Quit)
    } else if command is Some && !quits_while_typing(command->0, chord, query_of(state)) {
        action_of(command->0, state)
    } else if state.mode is ConfirmWorktreeDelete {
        None
    } else {
        inserting(typed(chord))
    }
}

fn resolve_in_help(chord: KeyChord, state: &AppState, keys: &KeysConfig) -> (action: Option<Action>)
    ensures
        action == key_in_help(chord, state.deep_view(), keys.deep_view()),
{
    if chord.code == KeyCode::Esc && chord.modifiers == KeyModifiers::none() {
        return Some(Action::CloseHelp);
    }
    match keys.command_for(KeysConfig::mode_for(&state.mode), chord) {
        Some(command) => {
            let action = help_command_to_action(command);
            if action.is_some() {
                return action;
            }
        },
        None => {},
    }
    match typed_char(chord) {
        Some(character) => Some(Action::Insert(character)),
        None => None,
    }
}

/// What a key does.
pub fn resolve_action(key: KeyEvent, state: &AppState, keys: &KeysConfig) -> (action: Option<
    Action,
>)
    ensures
        action == key_action(key, state.deep_view(), keys.deep_view()),
{
    let chord = KeyChord::from_event(key);
    if state.help_overlay.is_some() {
        return resolve_in_help(chord, state, keys);
    }
    if state.toasts.len() > 0 && keys.is_dismiss_toast(chord) {
        return Some(Action::DismissToast);
    }
    let command = keys.command_for(KeysConfig::mode_for(&state.mode), chord);
    let waiting = match &state.mode {
        Mode::Loading { .. } => true,
        Mode::ValidatingNewBranch { .. } => true,
        _ => false,
    };
    if waiting {
        return match command {
            Some(Command::Quit) => Some(Action::Quit),
            _ => None,
        };
    }
    match command {
        Some(command) => {
            let bare = match chord.code {
                KeyCode::Char(_) => chord.modifiers == KeyModifiers::none(),
                _ => false,
            };
            if !(command == Command::Quit && bare && !is_query_empty(state)) {
                return command_to_action(command, state);
            }
        },
        None => {},
    }
    let searching = match &state.mode {
        Mode::ConfirmWorktreeDelete(_) => false,
        _ => true,
    };
    if !searching {
        return None;
    }
    match typed_char(chord) {
        Some(character) => Some(Action::Insert(character)),
        None => None,
    }
}

/// While the help is shown, no key acts on the screen below it.
pub proof fn lemma_help_shields_the_screen(event: KeyEvent, state: AppStateV, keys: KeysConfigV)
    requires
        state.help_overlay is Some,
    ensures
        match key_action(event, state, keys) {
            Some(action) => action is CloseHelp || action is MoveSelection || action is ClearQuery
                || action is Backspace || action is DeleteWord || action is CursorLeft
                || action is CursorRight || action is Insert,
            None => true,
        },
{
}

/// While something is opened or validated, a key quits or dismisses a notification, nothing
/// else.
pub proof fn lemma_waiting_only_quits(event: KeyEvent, state: AppStateV, keys: KeysConfigV)
    requires
        state.help_overlay is None,
        state.mode is Loading || state.mode is ValidatingNewBranch,
    ensures
        match key_action(event, state, keys) {
            Some(action) => action is Quit || action is DismissToast,
            None => true,
        },
{
}

/// A key that dismisses notifications does so before anything that a screen binds it to.
pub proof fn lemma_dismissal_comes_first(event: KeyEvent, state: AppStateV, keys: KeysConfigV)
    requires
        state.help_overlay is None,
        state.toasts.len() > 0,
        bound(keys.general, chord_of(event)) == Some(Command::DismissToast),
    ensures
        key_action(event, state, keys) == Some(Action::DismissToast),
{
}

} // verus!
