//! Keys as the terminal reports them, and what the picker does on a key.

use vstd::prelude::*;

verus! {

/// A key, without its modifiers.
#[derive(Debug, Clone, Copy, PartialEq, Eq, Structural)]
pub enum KeyCode {
    Char(char),
    Enter,
    Esc,
    Tab,
    BackTab,
    Backspace,
    Delete,
    Up,
    Down,
    Left,
    Right,
    Home,
    End,
    PageUp,
    PageDown,
    /// A key that nothing can be bound to.
    Other,
}

/// The modifiers that are held with a key.
#[derive(Debug, Clone, Copy, PartialEq, Eq, Structural)]
pub struct KeyModifiers {
    pub control: bool,
    pub alt: bool,
    pub shift: bool,
    /// Some modifier that no binding can name.
    pub other: bool,
}

impl KeyModifiers {
    pub open spec fn none_spec() -> KeyModifiers {
        KeyModifiers { control: false, alt: false, shift: false, other: false }
    }

    pub fn none() -> (modifiers: KeyModifiers)
        ensures
            modifiers == KeyModifiers::none_spec(),
    {
        KeyModifiers { control: false, alt: false, shift: false, other: false }
    }
}

/// One press of a key.
#[derive(Debug, Clone, Copy, PartialEq, Eq, Structural)]
pub struct KeyEvent {
    pub code: KeyCode,
    pub modifiers: KeyModifiers,
}

/// What the repository and branch picker does on a key.
#[derive(Debug, Clone, Copy, PartialEq, Eq, Structural)]
pub enum Action {
    Quit,
    ShowHelp,
    CloseHelp,
    MoveSelection(i32),
    Insert(char),
    Backspace,
    DeleteWord,
    CursorLeft,
    CursorRight,
    ClearQuery,
    OpenRepo,
    OpenBranches,
    OpenBranch,
    BackToRepos,
    StartNewBranch,
    CreateNewBranch,
    DeleteWorktree,
    ConfirmDeleteWorktree,
    CancelOverlay,
    DismissToast,
    Noop,
}

} // verus!
