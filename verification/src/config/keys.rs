//! Key bindings: chords, the commands they can stand for, and the layers that bind them.

use crate::keyboard::{KeyCode, KeyEvent, KeyModifiers};
use crate::order::{by_key, chained, compare_text, consistent, lemma_by_key_consistent, lemma_chained_consistent, lemma_consistent_total, lemma_rank_int_consistent, lemma_rank_text_consistent, not_after, rank_int, rank_text, rank_u64, stable_sort, stable_sorted, total_preorder, Rank};
use crate::text::{ascii_letter, ascii_lowercase, ascii_lowered, ascii_lowered_all, ascii_raised, chars_of, concat3, is_ascii_letter, owned, pieces, lemma_pieces_nonempty, same_text, split_chars, text_of, to_ascii_lower, to_ascii_upper};
use crate::state::{Mode, ModeV};
use vstd::prelude::*;
use vstd::string::*;

pub use crate::config::spelling::default_keys_toml;

verus! {

/// A key with the modifiers that are held with it.
#[derive(Debug, Clone, Copy, PartialEq, Eq, Structural)]
pub struct KeyChord {
    pub code: KeyCode,
    pub modifiers: KeyModifiers,
}

/// The chord that a key press counts as: a shifted tab is a tab, letters are lower case
/// without and upper case with shift, and shift says nothing with any other character.
pub open spec fn chord_of(event: KeyEvent) -> KeyChord {
    let shifted = KeyModifiers { shift: true, ..event.modifiers };
    let plain = KeyModifiers { shift: false, ..event.modifiers };
    match event.code {
        KeyCode::BackTab => KeyChord { code: KeyCode::Tab, modifiers: shifted },
        KeyCode::Char(c) => if event.modifiers.shift && ascii_letter(c) {
            KeyChord { code: KeyCode::Char(ascii_raised(c)), modifiers: event.modifiers }
        } else {
            KeyChord { code: KeyCode::Char(ascii_lowered(c)), modifiers: plain }
        },
        code => KeyChord { code, modifiers: event.modifiers },
    }
}

/// A modifier that a binding can name.
#[derive(Debug, Clone, Copy, PartialEq, Eq, Structural)]
pub enum Modifier {
    Control,
    Alt,
    Shift,
}

/// The modifier that a token in lower case names.
pub open spec fn modifier_named(token: Seq<char>) -> Option<Modifier> {
    if token == "c"@ || token == "ctrl"@ || token == "control"@ {
        Some(Modifier::Control)
    } else if token == "a"@ || token == "alt"@ || token == "m"@ {
        Some(Modifier::Alt)
    } else if token == "s"@ || token == "shift"@ {
        Some(Modifier::Shift)
    } else {
        None
    }
}

pub open spec fn has_modifier(modifiers: KeyModifiers, modifier: Modifier) -> bool {
    match modifier {
        Modifier::Control => modifiers.control,
        Modifier::Alt => modifiers.alt,
        Modifier::Shift => modifiers.shift,
    }
}

pub open spec fn with_modifier(modifiers: KeyModifiers, modifier: Modifier) -> KeyModifiers {
    match modifier {
        Modifier::Control => KeyModifiers { control: true, ..modifiers },
        Modifier::Alt => KeyModifiers { alt: true, ..modifiers },
        Modifier::Shift => KeyModifiers { shift: true, ..modifiers },
    }
}

/// The modifiers that the tokens name, or what is wrong with the first bad one.
pub open spec fn modifiers_named(tokens: Seq<Seq<char>>) -> Result<KeyModifiers, Seq<char>>
    decreases tokens.len(),
{
    if tokens.len() == 0 {
        Ok(KeyModifiers::none_spec())
    } else {
        let token = tokens.last();
        match modifiers_named(tokens.drop_last()) {
            Err(problem) => Err(problem),
            Ok(before) => match modifier_named(ascii_lowered_all(token)) {
                None => Err("invalid key modifier '"@ + token + "-'"@),
                Some(modifier) => if has_modifier(before, modifier) {
                    Err("repeated key modifier '"@ + token + "-'"@)
                } else {
                    Ok(with_modifier(before, modifier))
                },
            },
        }
    }
}

/// The key that a name in lower case stands for.
pub open spec fn key_named(name: Seq<char>) -> Option<KeyCode> {
    if name == "enter"@ || name == "return"@ {
        Some(KeyCode::Enter)
    } else if name == "esc"@ || name == "escape"@ {
        Some(KeyCode::Esc)
    } else if name == "tab"@ {
        Some(KeyCode::Tab)
    } else if name == "backspace"@ {
        Some(KeyCode::Backspace)
    } else if name == "del"@ || name == "delete"@ {
        Some(KeyCode::Delete)
    } else if name == "up"@ {
        Some(KeyCode::Up)
    } else if name == "down"@ {
        Some(KeyCode::Down)
    } else if name == "left"@ {
        Some(KeyCode::Left)
    } else if name == "right"@ {
        Some(KeyCode::Right)
    } else if name == "home"@ {
        Some(KeyCode::Home)
    } else if name == "end"@ {
        Some(KeyCode::End)
    } else if name == "pageup"@ || name == "page_up"@ {
        Some(KeyCode::PageUp)
    } else if name == "pagedown"@ || name == "page_down"@ {
        Some(KeyCode::PageDown)
    } else if name == "space"@ {
        Some(KeyCode::Char(' '))
    } else {
        None
    }
}

/// The key that the last token of a chord names under the given modifiers.
pub open spec fn key_of(key: Seq<char>, modifiers: KeyModifiers) -> Result<KeyCode, Seq<char>> {
    match key_named(ascii_lowered_all(key)) {
        Some(code) => Ok(code),
        None => if key.len() == 1 {
            if modifiers.shift {
                if ascii_letter(key[0]) {
                    Ok(KeyCode::Char(ascii_raised(key[0])))
                } else {
                    Err(
                        "shift modifier cannot be used with non-letter key '"@ + key
                            + "'; bind the resulting character directly"@,
                    )
                }
            } else {
                Ok(KeyCode::Char(ascii_lowered(key[0])))
            }
        } else {
            Err("invalid key code '"@ + key + "'"@)
        },
    }
}

/// What stands between the tokens of a chord: a plus where one follows a modifier at the
/// start, a hyphen otherwise.
pub open spec fn chord_delimiter(text: Seq<char>) -> char {
    let split = pieces(text, '+');
    if split.len() > 1 && modifier_named(ascii_lowered_all(split[0])) is Some {
        '+'
    } else {
        '-'
    }
}

/// The chord that a text spells, or what is wrong with it.
pub open spec fn chord_spelled(text: Seq<char>) -> Result<KeyChord, Seq<char>> {
    if text.len() == 0 {
        Err("missing key chord"@)
    } else {
        let tokens = pieces(text, chord_delimiter(text));
        match modifiers_named(tokens.drop_last()) {
            Err(problem) => Err(problem),
            Ok(modifiers) => match key_of(tokens.last(), modifiers) {
                Err(problem) => Err(problem),
                Ok(code) => Ok(KeyChord { code, modifiers }),
            },
        }
    }
}

/// The outcome of reading a text, with the text of an error taken by its contents.
pub open spec fn outcome<T>(result: Result<T, String>) -> Result<T, Seq<char>> {
    match result {
        Ok(value) => Ok(value),
        Err(message) => Err(message@),
    }
}

fn find_modifier(token: &str) -> (modifier: Option<Modifier>)
    ensures
        modifier == modifier_named(token@),
{
    if same_text(token, "c") || same_text(token, "ctrl") || same_text(token, "control") {
        Some(Modifier::Control)
    } else if same_text(token, "a") || same_text(token, "alt") || same_text(token, "m") {
        Some(Modifier::Alt)
    } else if same_text(token, "s") || same_text(token, "shift") {
        Some(Modifier::Shift)
    } else {
        None
    }
}

/// Whether a token names a modifier, in any case.
pub fn is_modifier_token(token: &[char]) -> (answer: bool)
    ensures
        answer == (modifier_named(ascii_lowered_all(token@)) is Some),
{
    let lower = ascii_lowercase(token);
    find_modifier(lower.as_str()).is_some()
}

fn find_key(name: &str) -> (code: Option<KeyCode>)
    ensures
        code == key_named(name@),
{
    if same_text(name, "enter") || same_text(name, "return") {
        Some(KeyCode::Enter)
    } else if same_text(name, "esc") || same_text(name, "escape") {
        Some(KeyCode::Esc)
    } else if same_text(name, "tab") {
        Some(KeyCode::Tab)
    } else if same_text(name, "backspace") {
        Some(KeyCode::Backspace)
    } else if same_text(name, "del") || same_text(name, "delete") {
        Some(KeyCode::Delete)
    } else if same_text(name, "up") {
        Some(KeyCode::Up)
    } else if same_text(name, "down") {
        Some(KeyCode::Down)
    } else if same_text(name, "left") {
        Some(KeyCode::Left)
    } else if same_text(name, "right") {
        Some(KeyCode::Right)
    } else if same_text(name, "home") {
        Some(KeyCode::Home)
    } else if same_text(name, "end") {
        Some(KeyCode::End)
    } else if same_text(name, "pageup") || same_text(name, "page_up") {
        Some(KeyCode::PageUp)
    } else if same_text(name, "pagedown") || same_text(name, "page_down") {
        Some(KeyCode::PageDown)
    } else if same_text(name, "space") {
        Some(KeyCode::Char(' '))
    } else {
        None
    }
}

fn read_modifiers(tokens: &Vec<Vec<char>>) -> (result: Result<KeyModifiers, String>)
    requires
        tokens.len() > 0,
    ensures
        outcome(result) == modifiers_named(tokens.deep_view().drop_last()),
{
    let ghost all = tokens.deep_view();
    let mut modifiers = KeyModifiers::none();
    let mut i: usize = 0;
    while i < tokens.len() - 1
        invariant
            tokens.len() > 0,
            i <= tokens.len() - 1,
            all == tokens.deep_view(),
            modifiers_named(all.take(i as int)) == Ok::<KeyModifiers, Seq<char>>(modifiers),
        decreases tokens.len() - i,
    {
        let token: &Vec<char> = &tokens[i];
        proof {
            assert(all[i as int] =~= token@);
            assert(all.take(i + 1).drop_last() =~= all.take(i as int));
            assert(all.take(i + 1).last() == token@);
            lemma_modifiers_fail_early(all.drop_last(), i + 1);
            assert(all.drop_last().take(i + 1) =~= all.take(i + 1));
        }
        let lower = ascii_lowercase(token);
        let shown = text_of(token);
        match find_modifier(lower.as_str()) {
            None => {
                return Err(concat3("invalid key modifier '", shown.as_str(), "-'"));
            },
            Some(modifier) => {
                let repeated = match modifier {
                    Modifier::Control => modifiers.control,
                    Modifier::Alt => modifiers.alt,
                    Modifier::Shift => modifiers.shift,
                };
                if repeated {
                    return Err(concat3("repeated key modifier '", shown.as_str(), "-'"));
                }
                match modifier {
                    Modifier::Control => {
                        modifiers.control = true;
                    },
                    Modifier::Alt => {
                        modifiers.alt = true;
                    },
                    Modifier::Shift => {
                        modifiers.shift = true;
                    },
                }
            },
        }
        i = i + 1;
    }
    assert(all.take(i as int) =~= all.drop_last());
    Ok(modifiers)
}

proof fn lemma_modifiers_fail_early(tokens: Seq<Seq<char>>, count: int)
    requires
        0 <= count <= tokens.len(),
    ensures
        modifiers_named(tokens.take(count)) is Err ==> modifiers_named(tokens) == modifiers_named(
            tokens.take(count),
        ),
    decreases tokens.len(),
{
    if count == tokens.len() {
        assert(tokens.take(count) =~= tokens);
    } else {
        lemma_modifiers_fail_early(tokens.drop_last(), count);
        assert(tokens.drop_last().take(count) =~= tokens.take(count));
    }
}

fn read_key(key: &Vec<char>, modifiers: KeyModifiers) -> (result: Result<KeyCode, String>)
    ensures
        outcome(result) == key_of(key@, modifiers),
{
    let lower = ascii_lowercase(key);
    match find_key(lower.as_str()) {
        Some(code) => Ok(code),
        None => {
            let shown = text_of(key);
            if key.len() == 1 {
                let character = key[0];
                if modifiers.shift {
                    if is_ascii_letter(character) {
                        Ok(KeyCode::Char(to_ascii_upper(character)))
                    } else {
                        Err(
                            concat3(
                                "shift modifier cannot be used with non-letter key '",
                                shown.as_str(),
                                "'; bind the resulting character directly",
                            ),
                        )
                    }
                } else {
                    Ok(KeyCode::Char(to_ascii_lower(character)))
                }
            } else {
                Err(concat3("invalid key code '", shown.as_str(), "'"))
            }
        },
    }
}

/// How a chord is written for people to read.
pub open spec fn chord_display(chord: KeyChord) -> Seq<char> {
    let control = if chord.modifiers.control {
        "ctrl+"@
    } else {
        Seq::empty()
    };
    let alt = if chord.modifiers.alt {
        "alt+"@
    } else {
        Seq::empty()
    };
    let shift = if chord.modifiers.shift {
        "shift+"@
    } else {
        Seq::empty()
    };
    control + alt + shift + key_display(chord.code)
}

pub open spec fn key_display(code: KeyCode) -> Seq<char> {
    match code {
        KeyCode::Char(c) => if c == ' ' {
            "space"@
        } else {
            seq![ascii_lowered(c)]
        },
        KeyCode::Enter => "enter"@,
        KeyCode::Esc => "esc"@,
        KeyCode::Tab => "tab"@,
        KeyCode::Backspace => "backspace"@,
        KeyCode::Delete => "delete"@,
        KeyCode::Up => "↑"@,
        KeyCode::Down => "↓"@,
        KeyCode::Left => "←"@,
        KeyCode::Right => "→"@,
        KeyCode::Home => "home"@,
        KeyCode::End => "end"@,
        KeyCode::PageUp => "pageup"@,
        KeyCode::PageDown => "pagedown"@,
        KeyCode::BackTab | KeyCode::Other => "unknown"@,
    }
}

impl KeyChord {
    pub fn new(code: KeyCode, modifiers: KeyModifiers) -> (chord: KeyChord)
        ensures
            chord == (KeyChord { code, modifiers }),
    {
        KeyChord { code, modifiers }
    }

    /// The chord that a key press counts as.
    pub fn from_event(event: KeyEvent) -> (chord: KeyChord)
        ensures
            chord == chord_of(event),
    {
        let mut modifiers = event.modifiers;
        let code = match event.code {
            KeyCode::BackTab => {
                modifiers.shift = true;
                KeyCode::Tab
            },
            KeyCode::Char(character) => {
                if modifiers.shift && is_ascii_letter(character) {
                    KeyCode::Char(to_ascii_upper(character))
                } else {
                    modifiers.shift = false;
                    KeyCode::Char(to_ascii_lower(character))
                }
            },
            code => code,
        };
        KeyChord { code, modifiers }
    }

    /// Reads a chord such as `C-b`, `ctrl+b` or `shift-tab`.
    pub fn parse(value: &str) -> (result: Result<KeyChord, String>)
        ensures
            outcome(result) == chord_spelled(value@),
    {
        if value.is_empty() {
            return Err(owned("missing key chord"));
        }
        let chars = chars_of(value);
        let by_plus = split_chars(&chars, '+');
        proof {
            lemma_pieces_nonempty(value@, '+');
            assert(by_plus.deep_view()[0] =~= by_plus@[0]@);
        }
        let delimiter = if by_plus.len() > 1 && is_modifier_token(&by_plus[0]) {
            '+'
        } else {
            '-'
        };
        let tokens = split_chars(&chars, delimiter);
        proof {
            lemma_pieces_nonempty(value@, delimiter);
            assert(tokens.deep_view().last() =~= tokens@[tokens.len() - 1]@);
        }
        let modifiers = match read_modifiers(&tokens) {
            Ok(modifiers) => modifiers,
            Err(problem) => {
                return Err(problem);
            },
        };
        match read_key(&tokens[tokens.len() - 1], modifiers) {
            Ok(code) => Ok(KeyChord { code, modifiers }),
            Err(problem) => Err(problem),
        }
    }

    /// The chord for people to read.
    pub fn to_text(&self) -> (text: String)
        ensures
            text@ == chord_display(*self),
    {
        let mut text = String::new();
        if self.modifiers.control {
            text.push_str("ctrl+");
        }
        if self.modifiers.alt {
            text.push_str("alt+");
        }
        if self.modifiers.shift {
            text.push_str("shift+");
        }
        let ghost prefix = text@;
        match self.code {
            KeyCode::Char(character) => {
                if character == ' ' {
                    text.push_str("space");
                } else {
                    text.push(to_ascii_lower(character));
                }
            },
            KeyCode::Enter => text.push_str("enter"),
            KeyCode::Esc => text.push_str("esc"),
            KeyCode::Tab => text.push_str("tab"),
            KeyCode::Backspace => text.push_str("backspace"),
            KeyCode::Delete => text.push_str("delete"),
            KeyCode::Up => text.push_str("↑"),
            KeyCode::Down => text.push_str("↓"),
            KeyCode::Left => text.push_str("←"),
            KeyCode::Right => text.push_str("→"),
            KeyCode::Home => text.push_str("home"),
            KeyCode::End => text.push_str("end"),
            KeyCode::PageUp => text.push_str("pageup"),
            KeyCode::PageDown => text.push_str("pagedown"),
            KeyCode::BackTab => text.push_str("unknown"),
            KeyCode::Other => text.push_str("unknown"),
        }
        assert(text@ =~= prefix + key_display(self.code));
        assert(text@ =~= chord_display(*self));
        text
    }
}

impl std::str::FromStr for KeyChord {
    type Err = String;

    fn from_str(value: &str) -> (result: Result<Self, String>)
        ensures
            outcome(result) == chord_spelled(value@),
    {
        KeyChord::parse(value)
    }
}

/// What a chord can be bound to.
#[derive(Debug, Clone, Copy, PartialEq, Eq, Structural)]
pub enum Command {
    Noop,
    Quit,
    Help,
    DismissToast,
    MoveUp,
    MoveDown,
    Open,
    BranchesView,
    Back,
    NewBranch,
    Delete,
    Clear,
    Backspace,
    DeleteWord,
    CursorLeft,
    CursorRight,
}

/// The name of a command in a configuration file.
pub open spec fn command_name(command: Command) -> Seq<char> {
    match command {
        Command::Noop => "noop"@,
        Command::Quit => "quit"@,
        Command::Help => "help"@,
        Command::DismissToast => "dismiss_toast"@,
        Command::MoveUp => "move_up"@,
        Command::MoveDown => "move_down"@,
        Command::Open => "open"@,
        Command::BranchesView => "branches_view"@,
        Command::Back => "back"@,
        Command::NewBranch => "new_branch"@,
        Command::Delete => "delete"@,
        Command::Clear => "clear"@,
        Command::Backspace => "backspace"@,
        Command::DeleteWord => "delete_word"@,
        Command::CursorLeft => "cursor_left"@,
        Command::CursorRight => "cursor_right"@,
    }
}

/// What a command does, for people to read.
pub open spec fn command_description(command: Command) -> Seq<char> {
    match command {
        Command::Noop => "Unbound"@,
        Command::Quit => "Quit the picker"@,
        Command::Help => "Show active key bindings"@,
        Command::DismissToast => "Dismiss the visible notification"@,
        Command::MoveUp => "Move selection up"@,
        Command::MoveDown => "Move selection down"@,
        Command::Open => "Open or confirm the selection"@,
        Command::BranchesView => "Browse repository branches"@,
        Command::Back => "Go back or cancel"@,
        Command::NewBranch => "Create a new branch"@,
        Command::Delete => "Delete the selected checkout"@,
        Command::Clear => "Clear the search query"@,
        Command::Backspace => "Delete the previous character"@,
        Command::DeleteWord => "Delete the previous word"@,
        Command::CursorLeft => "Move the cursor left"@,
        Command::CursorRight => "Move the cursor right"@,
    }
}

/// The command that a configuration file names, older names included.
pub open spec fn command_named(text: Seq<char>) -> Option<Command> {
    if text == "noop"@ || text == "none"@ || text == "unbound"@ {
        Some(Command::Noop)
    } else if text == "quit"@ {
        Some(Command::Quit)
    } else if text == "help"@ || text == "show_help"@ {
        Some(Command::Help)
    } else if text == "dismiss_toast"@ {
        Some(Command::DismissToast)
    } else if text == "move_up"@ {
        Some(Command::MoveUp)
    } else if text == "move_down"@ {
        Some(Command::MoveDown)
    } else if text == "open"@ {
        Some(Command::Open)
    } else if text == "branches_view"@ || text == "enter_repo"@ {
        Some(Command::BranchesView)
    } else if text == "back"@ || text == "go_back"@ {
        Some(Command::Back)
    } else if text == "new_branch"@ {
        Some(Command::NewBranch)
    } else if text == "delete"@ || text == "delete_worktree"@ {
        Some(Command::Delete)
    } else if text == "clear"@ || text == "clear_query"@ {
        Some(Command::Clear)
    } else if text == "backspace"@ {
        Some(Command::Backspace)
    } else if text == "delete_word"@ {
        Some(Command::DeleteWord)
    } else if text == "cursor_left"@ {
        Some(Command::CursorLeft)
    } else if text == "cursor_right"@ {
        Some(Command::CursorRight)
    } else {
        None
    }
}

/// Where a command stands in a help section.
pub open spec fn command_place(command: Command) -> int {
    match command {
        Command::Noop => 15,
        Command::Quit => 14,
        Command::Help => 12,
        Command::DismissToast => 13,
        Command::MoveUp => 5,
        Command::MoveDown => 6,
        Command::Open => 0,
        Command::BranchesView => 1,
        Command::Back => 4,
        Command::NewBranch => 2,
        Command::Delete => 3,
        Command::Clear => 7,
        Command::Backspace => 8,
        Command::DeleteWord => 9,
        Command::CursorLeft => 10,
        Command::CursorRight => 11,
    }
}

impl Command {
    pub fn name(self) -> (text: &'static str)
        ensures
            text@ == command_name(self),
    {
        match self {
            Command::Noop => "noop",
            Command::Quit => "quit",
            Command::Help => "help",
            Command::DismissToast => "dismiss_toast",
            Command::MoveUp => "move_up",
            Command::MoveDown => "move_down",
            Command::Open => "open",
            Command::BranchesView => "branches_view",
            Command::Back => "back",
            Command::NewBranch => "new_branch",
            Command::Delete => "delete",
            Command::Clear => "clear",
            Command::Backspace => "backspace",
            Command::DeleteWord => "delete_word",
            Command::CursorLeft => "cursor_left",
            Command::CursorRight => "cursor_right",
        }
    }

    pub fn description(self) -> (text: &'static str)
        ensures
            text@ == command_description(self),
    {
        match self {
            Command::Noop => "Unbound",
            Command::Quit => "Quit the picker",
            Command::Help => "Show active key bindings",
            Command::DismissToast => "Dismiss the visible notification",
            Command::MoveUp => "Move selection up",
            Command::MoveDown => "Move selection down",
            Command::Open => "Open or confirm the selection",
            Command::BranchesView => "Browse repository branches",
            Command::Back => "Go back or cancel",
            Command::NewBranch => "Create a new branch",
            Command::Delete => "Delete the selected checkout",
            Command::Clear => "Clear the search query",
            Command::Backspace => "Delete the previous character",
            Command::DeleteWord => "Delete the previous word",
            Command::CursorLeft => "Move the cursor left",
            Command::CursorRight => "Move the cursor right",
        }
    }

    /// Reads the name of a command.
    pub fn parse(value: &str) -> (result: Result<Command, String>)
        ensures
            match command_named(value@) {
                Some(command) => outcome(result) == Ok::<Command, Seq<char>>(command),
                None => outcome(result) == Err::<Command, Seq<char>>(
                    "unknown key action '"@ + value@ + "'"@,
                ),
            },
    {
        if same_text(value, "noop") || same_text(value, "none") || same_text(value, "unbound") {
            Ok(Command::Noop)
        } else if same_text(value, "quit") {
            Ok(Command::Quit)
        } else if same_text(value, "help") || same_text(value, "show_help") {
            Ok(Command::Help)
        } else if same_text(value, "dismiss_toast") {
            Ok(Command::DismissToast)
        } else if same_text(value, "move_up") {
            Ok(Command::MoveUp)
        } else if same_text(value, "move_down") {
            Ok(Command::MoveDown)
        } else if same_text(value, "open") {
            Ok(Command::Open)
        } else if same_text(value, "branches_view") || same_text(value, "enter_repo") {
            Ok(Command::BranchesView)
        } else if same_text(value, "back") || same_text(value, "go_back") {
            Ok(Command::Back)
        } else if same_text(value, "new_branch") {
            Ok(Command::NewBranch)
        } else if same_text(value, "delete") || same_text(value, "delete_worktree") {
            Ok(Command::Delete)
        } else if same_text(value, "clear") || same_text(value, "clear_query") {
            Ok(Command::Clear)
        } else if same_text(value, "backspace") {
            Ok(Command::Backspace)
        } else if same_text(value, "delete_word") {
            Ok(Command::DeleteWord)
        } else if same_text(value, "cursor_left") {
            Ok(Command::CursorLeft)
        } else if same_text(value, "cursor_right") {
            Ok(Command::CursorRight)
        } else {
            Err(concat3("unknown key action '", value, "'"))
        }
    }
}

impl std::str::FromStr for Command {
    type Err = String;

    fn from_str(value: &str) -> (result: Result<Self, String>)
        ensures
            match command_named(value@) {
                Some(command) => outcome(result) == Ok::<Command, Seq<char>>(command),
                None => outcome(result) == Err::<Command, Seq<char>>(
                    "unknown key action '"@ + value@ + "'"@,
                ),
            },
    {
        Command::parse(value)
    }
}

/// Where a command stands in a help section.
pub fn command_rank(command: Command) -> (place: u8)
    ensures
        place as int == command_place(command),
{
    match command {
        Command::Noop => 15,
        Command::Quit => 14,
        Command::Help => 12,
        Command::DismissToast => 13,
        Command::MoveUp => 5,
        Command::MoveDown => 6,
        Command::Open => 0,
        Command::BranchesView => 1,
        Command::Back => 4,
        Command::NewBranch => 2,
        Command::Delete => 3,
        Command::Clear => 7,
        Command::Backspace => 8,
        Command::DeleteWord => 9,
        Command::CursorLeft => 10,
        Command::CursorRight => 11,
    }
}

/// A chord and the command that it is bound to.
#[derive(Debug, Clone, Copy, PartialEq, Eq, Structural)]
pub struct Binding {
    pub chord: KeyChord,
    pub command: Command,
}

/// The command that a layer binds a chord to.
pub open spec fn bound(layer: Seq<Binding>, chord: KeyChord) -> Option<Command>
    decreases layer.len(),
{
    if layer.len() == 0 {
        None
    } else if layer[0].chord == chord {
        Some(layer[0].command)
    } else {
        bound(layer.drop_first(), chord)
    }
}

/// No chord is bound twice.
pub open spec fn distinct_chords(layer: Seq<Binding>) -> bool {
    forall|i: int, j: int|
        0 <= i < j < layer.len() ==> (#[trigger] layer[i]).chord != (#[trigger] layer[j]).chord
}

/// A layer with one more binding, which replaces the one that its chord had.
pub open spec fn rebound(layer: Seq<Binding>, binding: Binding) -> Seq<Binding>
    decreases layer.len(),
{
    if layer.len() == 0 {
        seq![binding]
    } else if layer[0].chord == binding.chord {
        seq![binding] + layer.drop_first()
    } else {
        seq![layer[0]] + rebound(layer.drop_first(), binding)
    }
}

proof fn lemma_rebound_members(layer: Seq<Binding>, binding: Binding)
    requires
        distinct_chords(layer),
    ensures
        distinct_chords(rebound(layer, binding)),
        forall|i: int|
            0 <= i < rebound(layer, binding).len() ==> (#[trigger] rebound(layer, binding)[i]).chord
                == binding.chord || exists|k: int|
                0 <= k < layer.len() && layer[k].chord == rebound(layer, binding)[i].chord,
    decreases layer.len(),
{
    let out = rebound(layer, binding);
    if layer.len() == 0 {
    } else if layer[0].chord == binding.chord {
        assert forall|i: int, j: int| 0 <= i < j < out.len() implies (#[trigger] out[i]).chord != (
        #[trigger] out[j]).chord by {
            assert(layer[i].chord != layer[j].chord);
        }
        assert forall|i: int| 0 <= i < out.len() implies (#[trigger] out[i]).chord == binding.chord
            || exists|k: int| 0 <= k < layer.len() && layer[k].chord == out[i].chord by {
            assert(layer[i].chord == out[i].chord);
        }
    } else {
        let rest = layer.drop_first();
        assert forall|i: int, j: int| 0 <= i < j < rest.len() implies (#[trigger] rest[i]).chord
            != (#[trigger] rest[j]).chord by {
            assert(layer[i + 1].chord != layer[j + 1].chord);
        }
        lemma_rebound_members(rest, binding);
        let inner = rebound(rest, binding);
        assert forall|i: int| 0 <= i < out.len() implies (#[trigger] out[i]).chord == binding.chord
            || exists|k: int| 0 <= k < layer.len() && layer[k].chord == out[i].chord by {
            if i == 0 {
                assert(layer[0].chord == out[0].chord);
            } else {
                assert(out[i] == inner[i - 1]);
                if inner[i - 1].chord != binding.chord {
                    let k = choose|k: int|
                        0 <= k < rest.len() && rest[k].chord == inner[i - 1].chord;
                    assert(layer[k + 1].chord == out[i].chord);
                }
            }
        }
        assert forall|i: int, j: int| 0 <= i < j < out.len() implies (#[trigger] out[i]).chord != (
        #[trigger] out[j]).chord by {
            assert(out[j] == inner[j - 1]);
            if i > 0 {
                assert(out[i] == inner[i - 1]);
                assert(inner[i - 1].chord != inner[j - 1].chord);
            } else if inner[j - 1].chord != binding.chord {
                let k = choose|k: int| 0 <= k < rest.len() && rest[k].chord == inner[j - 1].chord;
                assert(layer[0].chord != layer[k + 1].chord);
            }
        }
    }
}

/// A rebound chord has its new command; every other chord keeps the one it had.
pub proof fn lemma_rebound(layer: Seq<Binding>, binding: Binding, chord: KeyChord)
    ensures
        bound(rebound(layer, binding), chord) == if chord == binding.chord {
            Some(binding.command)
        } else {
            bound(layer, chord)
        },
    decreases layer.len(),
{
    reveal_with_fuel(bound, 2);
    let out = rebound(layer, binding);
    if layer.len() == 0 {
        assert(out.drop_first() =~= Seq::<Binding>::empty());
    } else if layer[0].chord == binding.chord {
        assert(out.drop_first() =~= layer.drop_first());
    } else {
        assert(out.drop_first() =~= rebound(layer.drop_first(), binding));
        lemma_rebound(layer.drop_first(), binding, chord);
    }
}

fn find_bound(layer: &Vec<Binding>, chord: KeyChord) -> (command: Option<Command>)
    ensures
        command == bound(layer@, chord),
{
    let mut i: usize = 0;
    assert(layer@.skip(0) =~= layer@);
    while i < layer.len()
        invariant
            i <= layer.len(),
            bound(layer@, chord) == bound(layer@.skip(i as int), chord),
        decreases layer.len() - i,
    {
        assert(layer@.skip(i as int).drop_first() =~= layer@.skip(i + 1));
        if layer[i].chord == chord {
            return Some(layer[i].command);
        }
        i = i + 1;
    }
    None
}

fn bind(layer: &mut Vec<Binding>, binding: Binding)
    requires
        distinct_chords(old(layer)@),
    ensures
        final(layer)@ == rebound(old(layer)@, binding),
        distinct_chords(final(layer)@),
{
    let ghost start = layer@;
    proof {
        lemma_rebound_members(start, binding);
    }
    let mut i: usize = 0;
    assert(start.take(0) + rebound(start.skip(0), binding) =~= rebound(start, binding)) by {
        assert(start.skip(0) =~= start);
    }
    while i < layer.len()
        invariant
            i <= layer.len(),
            layer@ == start,
            start == old(layer)@,
            distinct_chords(rebound(start, binding)),
            start.take(i as int) + rebound(start.skip(i as int), binding) == rebound(
                start,
                binding,
            ),
        decreases layer.len() - i,
    {
        assert(start.skip(i as int).drop_first() =~= start.skip(i + 1));
        if layer[i].chord == binding.chord {
            layer.set(i, binding);
            assert(layer@ =~= start.take(i as int) + (seq![binding] + start.skip(i + 1)));
            return;
        }
        assert(start.take(i + 1) + rebound(start.skip(i + 1), binding) =~= start.take(i as int) + (
        seq![start[i as int]] + rebound(start.skip(i + 1), binding)));
        i = i + 1;
    }
    assert(start.skip(i as int) =~= Seq::<Binding>::empty());
    layer.push(binding);
    assert(layer@ =~= start.take(i as int) + seq![binding]);
}

/// The bindings by where they apply.
#[derive(Debug, PartialEq, Eq)]
pub struct KeysConfig {
    pub general: Vec<Binding>,
    pub text_edit: Vec<Binding>,
    pub list_navigation: Vec<Binding>,
    pub modal: Vec<Binding>,
    pub repo_select: Vec<Binding>,
    pub branch_select: Vec<Binding>,
}

pub struct KeysConfigV {
    pub general: Seq<Binding>,
    pub text_edit: Seq<Binding>,
    pub list_navigation: Seq<Binding>,
    pub modal: Seq<Binding>,
    pub repo_select: Seq<Binding>,
    pub branch_select: Seq<Binding>,
}

impl DeepView for KeysConfig {
    type V = KeysConfigV;

    open spec fn deep_view(&self) -> KeysConfigV {
        KeysConfigV {
            general: self.general@,
            text_edit: self.text_edit@,
            list_navigation: self.list_navigation@,
            modal: self.modal@,
            repo_select: self.repo_select@,
            branch_select: self.branch_select@,
        }
    }
}

/// Which screen the bindings apply to.
#[derive(Debug, Clone, Copy, PartialEq, Eq, Structural)]
pub enum BindingMode {
    Repo,
    Branch,
    BaseBranch,
    Modal,
}

/// The bindings that a configuration file adds, as it spells them.
#[derive(Debug, PartialEq, Eq)]
pub struct RawKeysConfig {
    pub general: Vec<(String, String)>,
    pub text_edit: Vec<(String, String)>,
    pub list_navigation: Vec<(String, String)>,
    pub modal: Vec<(String, String)>,
    pub repo_select: Vec<(String, String)>,
    pub branch_select: Vec<(String, String)>,
}

/// The bindings that take effect on one layer, under a heading.
#[derive(Debug, PartialEq, Eq)]
pub struct HelpSection {
    pub name: &'static str,
    pub bindings: Vec<Binding>,
}

pub struct HelpSectionV {
    pub name: Seq<char>,
    pub bindings: Seq<Binding>,
}

impl DeepView for HelpSection {
    type V = HelpSectionV;

    open spec fn deep_view(&self) -> HelpSectionV {
        HelpSectionV { name: self.name@, bindings: self.bindings@ }
    }
}

pub open spec fn first_of(first: Option<Command>, second: Option<Command>) -> Option<Command> {
    match first {
        Some(command) => Some(command),
        None => second,
    }
}

impl KeysConfigV {
    pub open spec fn wf(self) -> bool {
        &&& distinct_chords(self.general)
        &&& distinct_chords(self.text_edit)
        &&& distinct_chords(self.list_navigation)
        &&& distinct_chords(self.modal)
        &&& distinct_chords(self.repo_select)
        &&& distinct_chords(self.branch_select)
    }

    /// The layer of the screen itself.
    pub open spec fn screen_layer(self, mode: BindingMode) -> Seq<Binding> {
        match mode {
            BindingMode::Repo => self.repo_select,
            BindingMode::Branch => self.branch_select,
            BindingMode::BaseBranch | BindingMode::Modal => self.modal,
        }
    }

    /// The command of a chord: the layer of the screen decides first, then, outside of
    /// dialogs, list navigation and text editing, then the general layer.
    pub open spec fn command(self, mode: BindingMode, chord: KeyChord) -> Option<Command> {
        let general = bound(self.general, chord);
        let shared = if mode == BindingMode::Modal {
            general
        } else {
            first_of(
                bound(self.list_navigation, chord),
                first_of(bound(self.text_edit, chord), general),
            )
        };
        first_of(bound(self.screen_layer(mode), chord), shared)
    }

    /// The headings of the help for a screen, with the layer that each one shows.
    pub open spec fn layers(self, mode: BindingMode) -> Seq<(Seq<char>, Seq<Binding>)> {
        match mode {
            BindingMode::Repo => seq![
                ("repository"@, self.repo_select),
                ("navigation"@, self.list_navigation),
                ("search"@, self.text_edit),
                ("general"@, self.general),
            ],
            BindingMode::Branch => seq![
                ("branches"@, self.branch_select),
                ("navigation"@, self.list_navigation),
                ("search"@, self.text_edit),
                ("general"@, self.general),
            ],
            BindingMode::BaseBranch => seq![
                ("base branch"@, self.modal),
                ("navigation"@, self.list_navigation),
                ("search"@, self.text_edit),
                ("general"@, self.general),
            ],
            BindingMode::Modal => seq![("dialog"@, self.modal), ("general"@, self.general)],
        }
    }

    /// Whether a binding takes effect on a screen: it does something, and no other layer
    /// gives its chord another command.
    pub open spec fn effective(self, mode: BindingMode, binding: Binding) -> bool {
        binding.command != Command::Noop && self.command(mode, binding.chord) == Some(
            binding.command,
        )
    }

    pub open spec fn effective_bindings(self, mode: BindingMode, layer: Seq<Binding>) -> Seq<
        Binding,
    >
        decreases layer.len(),
    {
        if layer.len() == 0 {
            Seq::empty()
        } else {
            let before = self.effective_bindings(mode, layer.drop_last());
            if self.effective(mode, layer.last()) {
                before.push(layer.last())
            } else {
                before
            }
        }
    }

    /// The bindings that a help section shows, in its order.
    pub open spec fn section(self, mode: BindingMode, layer: Seq<Binding>) -> Seq<Binding> {
        stable_sorted(self.effective_bindings(mode, layer), not_after(rank_bindings()))
    }

    #[verifier::opaque]
    pub open spec fn sections_of(
        self,
        mode: BindingMode,
        layers: Seq<(Seq<char>, Seq<Binding>)>,
    ) -> Seq<HelpSectionV>
        decreases layers.len(),
    {
        if layers.len() == 0 {
            Seq::empty()
        } else {
            let before = self.sections_of(mode, layers.drop_last());
            let (name, layer) = layers.last();
            if self.section(mode, layer).len() > 0 {
                before.push(HelpSectionV { name, bindings: self.section(mode, layer) })
            } else {
                before
            }
        }
    }

    /// The help for a screen: one section for each layer that has an effective binding.
    pub open spec fn help(self, mode: BindingMode) -> Seq<HelpSectionV> {
        self.sections_of(mode, self.layers(mode))
    }
}

/// Order in a help section: by command, then by the chord as it is shown.
pub open spec fn rank_bindings() -> spec_fn(Binding, Binding) -> Rank {
    |a: Binding, b: Binding|
        rank_int(command_place(a.command), command_place(b.command)).or_else_spec(
            rank_text(chord_display(a.chord), chord_display(b.chord)),
        )
}

/// Help sections are in order: their order is a total preorder.
pub proof fn lemma_rank_bindings_consistent()
    ensures
        consistent(rank_bindings()),
        total_preorder(not_after(rank_bindings())),
{
    lemma_rank_int_consistent();
    lemma_rank_text_consistent();
    let ints = |a: int, b: int| rank_int(a, b);
    let texts = |a: Seq<char>, b: Seq<char>| rank_text(a, b);
    let place = |b: Binding| command_place(b.command);
    let shown = |b: Binding| chord_display(b.chord);
    lemma_by_key_consistent(ints, place);
    lemma_by_key_consistent(texts, shown);
    lemma_chained_consistent(by_key(ints, place), by_key(texts, shown));
    assert(chained(by_key(ints, place), by_key(texts, shown)) =~= rank_bindings());
    lemma_consistent_total(rank_bindings());
}

fn compare_bindings(left: &Binding, right: &Binding) -> (result: Rank)
    ensures
        result == rank_bindings()(*left, *right),
{
    let l: u64 = command_rank(left.command) as u64;
    let r: u64 = command_rank(right.command) as u64;
    let by_command = rank_u64(l, r);
    let shown_left = left.chord.to_text();
    let shown_right = right.chord.to_text();
    by_command.or_else(compare_text(shown_left.as_str(), shown_right.as_str()))
}

/// A chord with control or alt held.
pub open spec fn bare(code: KeyCode, control: bool, alt: bool) -> KeyChord {
    KeyChord { code, modifiers: KeyModifiers { control, alt, shift: false, other: false } }
}

pub open spec fn binds(code: KeyCode, control: bool, alt: bool, command: Command) -> Binding {
    Binding { chord: bare(code, control, alt), command }
}

fn binding(code: KeyCode, control: bool, alt: bool, command: Command) -> (result: Binding)
    ensures
        result == binds(code, control, alt, command),
{
    Binding {
        chord: KeyChord {
            code,
            modifiers: KeyModifiers { control, alt, shift: false, other: false },
        },
        command,
    }
}

/// The bindings that hold where the configuration says nothing else.
pub open spec fn default_keys() -> KeysConfigV {
    KeysConfigV {
        general: seq![
            binds(KeyCode::Char('c'), true, false, Command::Quit),
            binds(KeyCode::Char('h'), true, false, Command::Help),
            binds(KeyCode::Char('x'), true, false, Command::DismissToast),
        ],
        text_edit: seq![
            binds(KeyCode::Esc, false, false, Command::Clear),
            binds(KeyCode::Backspace, false, false, Command::Backspace),
            binds(KeyCode::Backspace, false, true, Command::DeleteWord),
            binds(KeyCode::Char('w'), true, false, Command::DeleteWord),
            binds(KeyCode::Left, false, false, Command::CursorLeft),
            binds(KeyCode::Right, false, false, Command::CursorRight),
        ],
        list_navigation: seq![
            binds(KeyCode::Up, false, false, Command::MoveUp),
            binds(KeyCode::Char('p'), true, false, Command::MoveUp),
            binds(KeyCode::Down, false, false, Command::MoveDown),
            binds(KeyCode::Char('n'), true, false, Command::MoveDown),
        ],
        modal: seq![
            binds(KeyCode::Enter, false, false, Command::Open),
            binds(KeyCode::Esc, false, false, Command::Back),
        ],
        repo_select: seq![
            binds(KeyCode::Enter, false, false, Command::Open),
            binds(KeyCode::Tab, false, false, Command::BranchesView),
            binds(KeyCode::Char('q'), false, false, Command::Quit),
        ],
        branch_select: seq![
            binds(KeyCode::Enter, false, false, Command::Open),
            binds(KeyCode::Esc, false, false, Command::Back),
            binds(KeyCode::Char('o'), true, false, Command::NewBranch),
            binds(KeyCode::Char('x'), true, false, Command::Delete),
        ],
    }
}

/// The commands that may be bound on each layer.
pub open spec fn allowed_general(command: Command) -> bool {
    command is Noop || command is Quit || command is Help || command is DismissToast
}

pub open spec fn allowed_text_edit(command: Command) -> bool {
    command is Noop || command is Clear || command is Backspace || command is DeleteWord
        || command is CursorLeft || command is CursorRight
}

pub open spec fn allowed_list_navigation(command: Command) -> bool {
    command is Noop || command is MoveUp || command is MoveDown
}

pub open spec fn allowed_modal(command: Command) -> bool {
    command is Noop || command is Open || command is Back
}

pub open spec fn allowed_repo_select(command: Command) -> bool {
    command is Noop || command is Open || command is BranchesView || command is Quit
}

pub open spec fn allowed_branch_select(command: Command) -> bool {
    command is Noop || command is Open || command is Back || command is NewBranch
        || command is Delete
}

/// One of the six layers.
#[derive(Debug, Clone, Copy, PartialEq, Eq, Structural)]
pub enum Layer {
    General,
    TextEdit,
    ListNavigation,
    Modal,
    RepoSelect,
    BranchSelect,
}

pub open spec fn allowed(layer: Layer, command: Command) -> bool {
    match layer {
        Layer::General => allowed_general(command),
        Layer::TextEdit => allowed_text_edit(command),
        Layer::ListNavigation => allowed_list_navigation(command),
        Layer::Modal => allowed_modal(command),
        Layer::RepoSelect => allowed_repo_select(command),
        Layer::BranchSelect => allowed_branch_select(command),
    }
}

fn is_allowed(layer: Layer, command: Command) -> (answer: bool)
    ensures
        answer == allowed(layer, command),
{
    match layer {
        Layer::General => matches!(
            command,
            Command::Noop | Command::Quit | Command::Help | Command::DismissToast
        ),
        Layer::TextEdit => matches!(
            command,
            Command::Noop | Command::Clear | Command::Backspace | Command::DeleteWord
            | Command::CursorLeft | Command::CursorRight
        ),
        Layer::ListNavigation => matches!(
            command,
            Command::Noop | Command::MoveUp | Command::MoveDown
        ),
        Layer::Modal => matches!(command, Command::Noop | Command::Open | Command::Back),
        Layer::RepoSelect => matches!(
            command,
            Command::Noop | Command::Open | Command::BranchesView | Command::Quit
        ),
        Layer::BranchSelect => matches!(
            command,
            Command::Noop | Command::Open | Command::Back | Command::NewBranch | Command::Delete
        ),
    }
}

/// The binding that a key and an action spell, or what is wrong with them.
pub open spec fn binding_spelled(layer: Layer, key: Seq<char>, action: Seq<char>) -> Result<
    Binding,
    Seq<char>,
> {
    match chord_spelled(key) {
        Err(problem) => Err("invalid key chord '"@ + key + "': "@ + problem),
        Ok(chord) => match command_named(action) {
            None => Err("unknown key action '"@ + action + "'"@),
            Some(command) => if allowed(layer, command) {
                Ok(Binding { chord, command })
            } else {
                Err("key action '"@ + action + "' is not allowed in this keys section"@)
            },
        },
    }
}

/// A layer with the bindings of a configuration file, or what is wrong with the first bad
/// one.
pub open spec fn extended(
    layer: Layer,
    bindings: Seq<Binding>,
    raw: Seq<(Seq<char>, Seq<char>)>,
) -> Result<Seq<Binding>, Seq<char>>
    decreases raw.len(),
{
    if raw.len() == 0 {
        Ok(bindings)
    } else {
        match extended(layer, bindings, raw.drop_last()) {
            Err(problem) => Err(problem),
            Ok(before) => match binding_spelled(layer, raw.last().0, raw.last().1) {
                Err(problem) => Err(problem),
                Ok(binding) => Ok(rebound(before, binding)),
            },
        }
    }
}

proof fn lemma_extended_fails_early(
    layer: Layer,
    bindings: Seq<Binding>,
    raw: Seq<(Seq<char>, Seq<char>)>,
    count: int,
)
    requires
        0 <= count <= raw.len(),
    ensures
        extended(layer, bindings, raw.take(count)) is Err ==> extended(layer, bindings, raw)
            == extended(layer, bindings, raw.take(count)),
    decreases raw.len(),
{
    if count == raw.len() {
        assert(raw.take(count) =~= raw);
    } else {
        lemma_extended_fails_early(layer, bindings, raw.drop_last(), count);
        assert(raw.drop_last().take(count) =~= raw.take(count));
    }
}

fn read_binding(layer: Layer, key: &str, action: &str) -> (result: Result<Binding, String>)
    ensures
        outcome(result) == binding_spelled(layer, key@, action@),
{
    match KeyChord::parse(key) {
        Err(problem) => {
            let mut message = concat3("invalid key chord '", key, "': ");
            message.push_str(problem.as_str());
            Err(message)
        },
        Ok(chord) => match Command::parse(action) {
            Err(problem) => Err(problem),
            Ok(command) => if is_allowed(layer, command) {
                Ok(Binding { chord, command })
            } else {
                Err(concat3("key action '", action, "' is not allowed in this keys section"))
            },
        },
    }
}

/// Adds the bindings of a configuration file to a layer.
#[verifier::loop_isolation(false)]
fn extend_layer(layer: Layer, bindings: &mut Vec<Binding>, raw: &Vec<(String, String)>) -> (result:
    Result<(), String>)
    requires
        distinct_chords(old(bindings)@),
    ensures
        distinct_chords(final(bindings)@),
        match extended(layer, old(bindings)@, raw.deep_view()) {
            Ok(after) => result is Ok && final(bindings)@ == after,
            Err(problem) => outcome(result) == Err::<(), Seq<char>>(problem),
        },
{
    let ghost start = bindings@;
    let ghost all = raw.deep_view();
    let mut i: usize = 0;
    while i < raw.len()
        invariant
            i <= raw.len(),
            distinct_chords(bindings@),
            extended(layer, start, all.take(i as int)) == Ok::<Seq<Binding>, Seq<char>>(bindings@),
        decreases raw.len() - i,
    {
        proof {
            assert(all.take(i + 1).drop_last() =~= all.take(i as int));
            assert(all.take(i + 1).last() == raw@[i as int].deep_view());
            lemma_extended_fails_early(layer, start, all, i + 1);
        }
        match read_binding(layer, raw[i].0.as_str(), raw[i].1.as_str()) {
            Ok(binding) => bind(bindings, binding),
            Err(problem) => {
                return Err(problem);
            },
        }
        i = i + 1;
    }
    assert(all.take(all.len() as int) =~= all);
    Ok(())
}

impl DeepView for RawKeysConfig {
    type V = RawKeysConfigV;

    open spec fn deep_view(&self) -> RawKeysConfigV {
        RawKeysConfigV {
            general: self.general.deep_view(),
            text_edit: self.text_edit.deep_view(),
            list_navigation: self.list_navigation.deep_view(),
            modal: self.modal.deep_view(),
            repo_select: self.repo_select.deep_view(),
            branch_select: self.branch_select.deep_view(),
        }
    }
}

pub struct RawKeysConfigV {
    pub general: Seq<(Seq<char>, Seq<char>)>,
    pub text_edit: Seq<(Seq<char>, Seq<char>)>,
    pub list_navigation: Seq<(Seq<char>, Seq<char>)>,
    pub modal: Seq<(Seq<char>, Seq<char>)>,
    pub repo_select: Seq<(Seq<char>, Seq<char>)>,
    pub branch_select: Seq<(Seq<char>, Seq<char>)>,
}

/// The defaults with the bindings of a configuration file on top, or what is wrong with the
/// first bad one.
pub open spec fn configured_keys(raw: RawKeysConfigV) -> Result<KeysConfigV, Seq<char>> {
    let base = default_keys();
    match extended(Layer::General, base.general, raw.general) {
        Err(problem) => Err(problem),
        Ok(general) => match extended(Layer::TextEdit, base.text_edit, raw.text_edit) {
            Err(problem) => Err(problem),
            Ok(text_edit) => match extended(
                Layer::ListNavigation,
                base.list_navigation,
                raw.list_navigation,
            ) {
                Err(problem) => Err(problem),
                Ok(list_navigation) => match extended(Layer::Modal, base.modal, raw.modal) {
                    Err(problem) => Err(problem),
                    Ok(modal) => match extended(
                        Layer::RepoSelect,
                        base.repo_select,
                        raw.repo_select,
                    ) {
                        Err(problem) => Err(problem),
                        Ok(repo_select) => match extended(
                            Layer::BranchSelect,
                            base.branch_select,
                            raw.branch_select,
                        ) {
                            Err(problem) => Err(problem),
                            Ok(branch_select) => Ok(
                                KeysConfigV {
                                    general,
                                    text_edit,
                                    list_navigation,
                                    modal,
                                    repo_select,
                                    branch_select,
                                },
                            ),
                        },
                    },
                },
            },
        },
    }
}

/// The chord that dismisses notifications whose display comes first.
pub open spec fn first_dismiss(layer: Seq<Binding>) -> Option<KeyChord>
    decreases layer.len(),
{
    if layer.len() == 0 {
        None
    } else {
        let before = first_dismiss(layer.drop_last());
        let last = layer.last();
        if last.command == Command::DismissToast && (before is None || rank_text(
            chord_display(last.chord),
            chord_display(before->0),
        ) == Rank::Less) {
            Some(last.chord)
        } else {
            before
        }
    }
}

/// The first binding of a command in a list of help sections.
pub open spec fn first_in_sections(sections: Seq<HelpSectionV>, wanted: Command) -> Option<KeyChord>
    decreases sections.len(),
{
    if sections.len() == 0 {
        None
    } else {
        match first_in_section(sections[0].bindings, wanted) {
            Some(chord) => Some(chord),
            None => first_in_sections(sections.drop_first(), wanted),
        }
    }
}

pub open spec fn first_in_section(bindings: Seq<Binding>, wanted: Command) -> Option<KeyChord>
    decreases bindings.len(),
{
    if bindings.len() == 0 {
        None
    } else if bindings[0].command == wanted {
        Some(bindings[0].chord)
    } else {
        first_in_section(bindings.drop_first(), wanted)
    }
}

fn find_in_section(bindings: &Vec<Binding>, wanted: Command) -> (chord: Option<KeyChord>)
    ensures
        chord == first_in_section(bindings@, wanted),
{
    let mut i: usize = 0;
    assert(bindings@.skip(0) =~= bindings@);
    while i < bindings.len()
        invariant
            i <= bindings.len(),
            first_in_section(bindings@, wanted) == first_in_section(
                bindings@.skip(i as int),
                wanted,
            ),
        decreases bindings.len() - i,
    {
        assert(bindings@.skip(i as int).drop_first() =~= bindings@.skip(i + 1));
        if bindings[i].command == wanted {
            return Some(bindings[i].chord);
        }
        i = i + 1;
    }
    None
}

impl Default for KeysConfig {
    fn default() -> (keys: Self)
        ensures
            keys.deep_view() == default_keys(),
            keys.deep_view().wf(),
    {
        let mut general: Vec<Binding> = Vec::new();
        general.push(binding(KeyCode::Char('c'), true, false, Command::Quit));
        general.push(binding(KeyCode::Char('h'), true, false, Command::Help));
        general.push(binding(KeyCode::Char('x'), true, false, Command::DismissToast));
        assert(general@ =~= default_keys().general);
        let mut text_edit: Vec<Binding> = Vec::new();
        text_edit.push(binding(KeyCode::Esc, false, false, Command::Clear));
        text_edit.push(binding(KeyCode::Backspace, false, false, Command::Backspace));
        text_edit.push(binding(KeyCode::Backspace, false, true, Command::DeleteWord));
        text_edit.push(binding(KeyCode::Char('w'), true, false, Command::DeleteWord));
        text_edit.push(binding(KeyCode::Left, false, false, Command::CursorLeft));
        text_edit.push(binding(KeyCode::Right, false, false, Command::CursorRight));
        assert(text_edit@ =~= default_keys().text_edit);
        let mut list_navigation: Vec<Binding> = Vec::new();
        list_navigation.push(binding(KeyCode::Up, false, false, Command::MoveUp));
        list_navigation.push(binding(KeyCode::Char('p'), true, false, Command::MoveUp));
        list_navigation.push(binding(KeyCode::Down, false, false, Command::MoveDown));
        list_navigation.push(binding(KeyCode::Char('n'), true, false, Command::MoveDown));
        assert(list_navigation@ =~= default_keys().list_navigation);
        let mut modal: Vec<Binding> = Vec::new();
        modal.push(binding(KeyCode::Enter, false, false, Command::Open));
        modal.push(binding(KeyCode::Esc, false, false, Command::Back));
        assert(modal@ =~= default_keys().modal);
        let mut repo_select: Vec<Binding> = Vec::new();
        repo_select.push(binding(KeyCode::Enter, false, false, Command::Open));
        repo_select.push(binding(KeyCode::Tab, false, false, Command::BranchesView));
        repo_select.push(binding(KeyCode::Char('q'), false, false, Command::Quit));
        assert(repo_select@ =~= default_keys().repo_select);
        let mut branch_select: Vec<Binding> = Vec::new();
        branch_select.push(binding(KeyCode::Enter, false, false, Command::Open));
        branch_select.push(binding(KeyCode::Esc, false, false, Command::Back));
        branch_select.push(binding(KeyCode::Char('o'), true, false, Command::NewBranch));
        branch_select.push(binding(KeyCode::Char('x'), true, false, Command::Delete));
        assert(branch_select@ =~= default_keys().branch_select);
        KeysConfig { general, text_edit, list_navigation, modal, repo_select, branch_select }
    }
}

impl KeysConfig {
    /// The defaults with the bindings of a configuration file on top.
    pub fn from_raw(raw: &RawKeysConfig) -> (result: Result<KeysConfig, String>)
        ensures
            match configured_keys(raw.deep_view()) {
                Ok(keys) => result matches Ok(found) && found.deep_view() == keys && keys.wf(),
                Err(problem) => result matches Err(message) && message@ == problem,
            },
    {
        let mut keys = KeysConfig::default();
        match extend_layer(Layer::General, &mut keys.general, &raw.general) {
            Ok(_) => {},
            Err(problem) => {
                return Err(problem);
            },
        }
        match extend_layer(Layer::TextEdit, &mut keys.text_edit, &raw.text_edit) {
            Ok(_) => {},
            Err(problem) => {
                return Err(problem);
            },
        }
        match extend_layer(Layer::ListNavigation, &mut keys.list_navigation, &raw.list_navigation) {
            Ok(_) => {},
            Err(problem) => {
                return Err(problem);
            },
        }
        match extend_layer(Layer::Modal, &mut keys.modal, &raw.modal) {
            Ok(_) => {},
            Err(problem) => {
                return Err(problem);
            },
        }
        match extend_layer(Layer::RepoSelect, &mut keys.repo_select, &raw.repo_select) {
            Ok(_) => {},
            Err(problem) => {
                return Err(problem);
            },
        }
        match extend_layer(Layer::BranchSelect, &mut keys.branch_select, &raw.branch_select) {
            Ok(_) => {},
            Err(problem) => {
                return Err(problem);
            },
        }
        Ok(keys)
    }

    /// The command that a chord has on a screen.
    pub fn command_for(&self, mode: BindingMode, chord: KeyChord) -> (command: Option<Command>)
        ensures
            command == self.deep_view().command(mode, chord),
    {
        let on_screen = match mode {
            BindingMode::Repo => find_bound(&self.repo_select, chord),
            BindingMode::Branch => find_bound(&self.branch_select, chord),
            BindingMode::BaseBranch => find_bound(&self.modal, chord),
            BindingMode::Modal => find_bound(&self.modal, chord),
        };
        if on_screen.is_some() {
            return on_screen;
        }
        if mode != BindingMode::Modal {
            let navigation = find_bound(&self.list_navigation, chord);
            if navigation.is_some() {
                return navigation;
            }
            let editing = find_bound(&self.text_edit, chord);
            if editing.is_some() {
                return editing;
            }
        }
        find_bound(&self.general, chord)
    }

    pub fn is_dismiss_toast(&self, chord: KeyChord) -> (answer: bool)
        ensures
            answer == (bound(self.deep_view().general, chord) == Some(Command::DismissToast)),
    {
        match find_bound(&self.general, chord) {
            Some(command) => command == Command::DismissToast,
            None => false,
        }
    }

    /// The chord to show as the one that dismisses notifications.
    pub fn dismiss_toast_key(&self) -> (chord: Option<KeyChord>)
        ensures
            chord == first_dismiss(self.deep_view().general),
    {
        let layer: &Vec<Binding> = &self.general;
        let mut best: Option<KeyChord> = None;
        let mut i: usize = 0;
        while i < layer.len()
            invariant
                i <= layer.len(),
                best == first_dismiss(layer@.take(i as int)),
            decreases layer.len() - i,
        {
            assert(layer@.take(i + 1).drop_last() =~= layer@.take(i as int));
            assert(layer@.take(i + 1).last() == layer@[i as int]);
            if layer[i].command == Command::DismissToast {
                let better = match best {
                    Some(chord) => {
                        let shown = layer[i].chord.to_text();
                        let other = chord.to_text();
                        compare_text(shown.as_str(), other.as_str()) == Rank::Less
                    },
                    None => true,
                };
                if better {
                    best = Some(layer[i].chord);
                }
            }
            i = i + 1;
        }
        assert(layer@.take(layer@.len() as int) =~= layer@);
        best
    }

    fn section(&self, mode: BindingMode, layer: &Vec<Binding>) -> (bindings: Vec<Binding>)
        ensures
            bindings@ == self.deep_view().section(mode, layer@),
    {
        let mut found: Vec<Binding> = Vec::new();
        let mut i: usize = 0;
        while i < layer.len()
            invariant
                i <= layer.len(),
                found@ == self.deep_view().effective_bindings(mode, layer@.take(i as int)),
            decreases layer.len() - i,
        {
            assert(layer@.take(i + 1).drop_last() =~= layer@.take(i as int));
            assert(layer@.take(i + 1).last() == layer@[i as int]);
            let binding = layer[i];
            if binding.command != Command::Noop {
                match self.command_for(mode, binding.chord) {
                    Some(command) => {
                        if command == binding.command {
                            found.push(binding);
                        }
                    },
                    None => {},
                }
            }
            i = i + 1;
        }
        assert(layer@.take(layer@.len() as int) =~= layer@);
        let le = |a: &Binding, b: &Binding| -> (answer: bool)
            ensures
                answer == not_after(rank_bindings())(*a, *b),
        {
            let rank = compare_bindings(a, b);
            rank != Rank::Greater
        };
        stable_sort(found, le, Ghost(not_after(rank_bindings())))
    }

    fn add_section(
        &self,
        mode: BindingMode,
        name: &'static str,
        layer: &Vec<Binding>,
        sections: &mut Vec<HelpSection>,
        Ghost(done): Ghost<Seq<(Seq<char>, Seq<Binding>)>>,
    )
        requires
            old(sections).deep_view() == self.deep_view().sections_of(mode, done),
        ensures
            final(sections).deep_view() == self.deep_view().sections_of(
                mode,
                done.push((name@, layer@)),
            ),
    {
        let ghost before = sections.deep_view();
        reveal(KeysConfigV::sections_of);
        assert(done.push((name@, layer@)).drop_last() =~= done);
        let bindings = self.section(mode, layer);
        if bindings.len() > 0 {
            let section = HelpSection { name, bindings };
            let ghost added = section.deep_view();
            sections.push(section);
            assert(sections.deep_view() =~= before.push(added));
        }
    }

    /// The help for a screen.
    pub fn sections(&self, mode: BindingMode) -> (sections: Vec<HelpSection>)
        ensures
            sections.deep_view() == self.deep_view().help(mode),
    {
        let mut sections: Vec<HelpSection> = Vec::new();
        let ghost none: Seq<(Seq<char>, Seq<Binding>)> = Seq::empty();
        assert(sections.deep_view() =~= self.deep_view().sections_of(mode, none)) by {
            reveal(KeysConfigV::sections_of);
        }
        let (heading, layer): (&'static str, &Vec<Binding>) = match mode {
            BindingMode::Repo => ("repository", &self.repo_select),
            BindingMode::Branch => ("branches", &self.branch_select),
            BindingMode::BaseBranch => ("base branch", &self.modal),
            BindingMode::Modal => ("dialog", &self.modal),
        };
        self.add_section(mode, heading, layer, &mut sections, Ghost(none));
        let ghost own = none.push((heading@, layer@));
        if mode == BindingMode::Modal {
            self.add_section(mode, "general", &self.general, &mut sections, Ghost(own));
            assert(own.push(("general"@, self.general@)) =~= self.deep_view().layers(mode));
            return sections;
        }
        self.add_section(mode, "navigation", &self.list_navigation, &mut sections, Ghost(own));
        let ghost moves = own.push(("navigation"@, self.list_navigation@));
        self.add_section(mode, "search", &self.text_edit, &mut sections, Ghost(moves));
        let ghost edits = moves.push(("search"@, self.text_edit@));
        self.add_section(mode, "general", &self.general, &mut sections, Ghost(edits));
        assert(edits.push(("general"@, self.general@)) =~= self.deep_view().layers(mode));
        sections
    }

    /// The chord to show for a command on a screen: the first one that its help lists.
    pub fn first_key(&self, mode: BindingMode, wanted: Command) -> (chord: Option<KeyChord>)
        ensures
            chord == first_in_sections(self.deep_view().help(mode), wanted),
    {
        let sections = self.sections(mode);
        let ghost all = sections.deep_view();
        let mut i: usize = 0;
        assert(all.skip(0) =~= all);
        while i < sections.len()
            invariant
                i <= sections.len(),
                all == sections.deep_view(),
                all == self.deep_view().help(mode),
                first_in_sections(all, wanted) == first_in_sections(all.skip(i as int), wanted),
            decreases sections.len() - i,
        {
            proof {
                assert(all.skip(i as int)[0] == sections@[i as int].deep_view());
                assert(all.skip(i as int).drop_first() =~= all.skip(i + 1));
            }
            let found = find_in_section(&sections[i].bindings, wanted);
            if found.is_some() {
                return found;
            }
            i = i + 1;
        }
        assert(all.skip(i as int) =~= Seq::<HelpSectionV>::empty());
        None
    }
}

/// A binding that a help section shows is the one that takes effect on that screen.
pub proof fn lemma_help_shows_effective_bindings(keys: KeysConfigV, mode: BindingMode, layer: Seq<Binding>, at: int)
    requires
        0 <= at < keys.section(mode, layer).len(),
    ensures
        keys.effective(mode, keys.section(mode, layer)[at]),
{
    let found = keys.effective_bindings(mode, layer);
    lemma_rank_bindings_consistent();
    let places = crate::order::lemma_stable_sort(found, not_after(rank_bindings()));
    assert(keys.section(mode, layer)[at] == found[places[at]]);
    lemma_effective_members(keys, mode, layer, places[at]);
}

proof fn lemma_effective_members(keys: KeysConfigV, mode: BindingMode, layer: Seq<Binding>, at: int)
    requires
        0 <= at < keys.effective_bindings(mode, layer).len(),
    ensures
        keys.effective(mode, keys.effective_bindings(mode, layer)[at]),
    decreases layer.len(),
{
    let before = keys.effective_bindings(mode, layer.drop_last());
    if at < before.len() {
        lemma_effective_members(keys, mode, layer.drop_last(), at);
    }
}

/// Whether some section shows a binding.
pub open spec fn shows(sections: Seq<HelpSectionV>, binding: Binding) -> bool {
    exists|i: int|
        0 <= i < sections.len() && (#[trigger] sections[i]).bindings.contains(binding)
}

/// A chord that has a command on a layer is bound to it there.
proof fn lemma_bound_is_there(layer: Seq<Binding>, chord: KeyChord)
    ensures
        bound(layer, chord) matches Some(command) ==> layer.contains(Binding { chord, command }),
    decreases layer.len(),
{
    if layer.len() > 0 {
        if layer[0].chord == chord {
            assert(layer[0] == (Binding { chord, command: layer[0].command }));
        } else {
            let rest = layer.drop_first();
            lemma_bound_is_there(rest, chord);
            if bound(rest, chord) is Some {
                let wanted = Binding { chord, command: bound(rest, chord)->0 };
                let at = choose|i: int| 0 <= i < rest.len() && rest[i] == wanted;
                assert(layer[at + 1] == wanted);
            }
        }
    }
}

proof fn lemma_effective_is_kept(
    keys: KeysConfigV,
    mode: BindingMode,
    layer: Seq<Binding>,
    binding: Binding,
)
    requires
        layer.contains(binding),
        keys.effective(mode, binding),
    ensures
        keys.effective_bindings(mode, layer).contains(binding),
    decreases layer.len(),
{
    let at = choose|i: int| 0 <= i < layer.len() && layer[i] == binding;
    let found = keys.effective_bindings(mode, layer);
    if at == layer.len() - 1 {
        assert(found.last() == binding);
    } else {
        let before = layer.drop_last();
        assert(before[at] == binding);
        lemma_effective_is_kept(keys, mode, before, binding);
        let kept = keys.effective_bindings(mode, before);
        let k = choose|i: int| 0 <= i < kept.len() && kept[i] == binding;
        assert(found[k] == binding);
    }
}

proof fn lemma_section_holds(
    keys: KeysConfigV,
    mode: BindingMode,
    layer: Seq<Binding>,
    binding: Binding,
)
    requires
        layer.contains(binding),
        keys.effective(mode, binding),
    ensures
        keys.section(mode, layer).contains(binding),
{
    lemma_effective_is_kept(keys, mode, layer, binding);
    let found = keys.effective_bindings(mode, layer);
    let at = choose|i: int| 0 <= i < found.len() && found[i] == binding;
    crate::order::lemma_sorted_contains(found, not_after(rank_bindings()), at);
}

/// The sections of some layers: none is empty, each shows effective bindings, and every
/// effective binding of one of the layers is shown.
proof fn lemma_sections_of(
    keys: KeysConfigV,
    mode: BindingMode,
    layers: Seq<(Seq<char>, Seq<Binding>)>,
)
    ensures
        forall|i: int|
            0 <= i < keys.sections_of(mode, layers).len() ==> (#[trigger] keys.sections_of(
                mode,
                layers,
            )[i]).bindings.len() > 0,
        forall|binding: Binding| #[trigger]
            shows(keys.sections_of(mode, layers), binding) ==> keys.effective(mode, binding),
        forall|k: int, binding: Binding|
            0 <= k < layers.len() && #[trigger] layers[k].1.contains(binding) && keys.effective(
                mode,
                binding,
            ) ==> shows(keys.sections_of(mode, layers), binding),
    decreases layers.len(),
{
    reveal(KeysConfigV::sections_of);
    let sections = keys.sections_of(mode, layers);
    if layers.len() > 0 {
        let shorter = layers.drop_last();
        let before = keys.sections_of(mode, shorter);
        let (name, layer) = layers.last();
        let own = keys.section(mode, layer);
        lemma_sections_of(keys, mode, shorter);
        assert forall|binding: Binding| #[trigger] shows(sections, binding) implies keys.effective(
            mode,
            binding,
        ) by {
            let i = choose|i: int|
                0 <= i < sections.len() && (#[trigger] sections[i]).bindings.contains(binding);
            if i < before.len() {
                assert(before[i].bindings.contains(binding));
                assert(shows(before, binding));
            } else {
                let at = choose|j: int| 0 <= j < own.len() && own[j] == binding;
                lemma_help_shows_effective_bindings(keys, mode, layer, at);
            }
        }
        assert forall|k: int, binding: Binding|
            0 <= k < layers.len() && #[trigger] layers[k].1.contains(binding) && keys.effective(
                mode,
                binding,
            ) implies shows(sections, binding) by {
            if k < shorter.len() {
                assert(shorter[k].1.contains(binding));
                let i = choose|i: int|
                    0 <= i < before.len() && (#[trigger] before[i]).bindings.contains(binding);
                assert(sections[i] == before[i]);
                assert(sections[i].bindings.contains(binding));
            } else {
                lemma_section_holds(keys, mode, layer, binding);
                assert(own.len() > 0);
                assert(sections.last().bindings.contains(binding));
                assert(sections[sections.len() - 1].bindings.contains(binding));
            }
        }
    }
}

/// The help of a screen shows a chord under a command exactly where the chord has that
/// command on the screen and the command does something; no section of it is empty.
pub proof fn lemma_help_is_what_takes_effect(
    keys: KeysConfigV,
    mode: BindingMode,
    chord: KeyChord,
    command: Command,
)
    ensures
        shows(keys.help(mode), Binding { chord, command }) <==> command != Command::Noop
            && keys.command(mode, chord) == Some(command),
        forall|i: int|
            0 <= i < keys.help(mode).len() ==> (#[trigger] keys.help(mode)[i]).bindings.len() > 0,
{
    let layers = keys.layers(mode);
    let binding = Binding { chord, command };
    lemma_sections_of(keys, mode, layers);
    if command != Command::Noop && keys.command(mode, chord) == Some(command) {
        lemma_bound_is_there(keys.screen_layer(mode), chord);
        lemma_bound_is_there(keys.list_navigation, chord);
        lemma_bound_is_there(keys.text_edit, chord);
        lemma_bound_is_there(keys.general, chord);
        assert(layers[0].1 == keys.screen_layer(mode));
        if bound(keys.screen_layer(mode), chord) is Some {
            assert(layers[0].1.contains(binding));
        } else if mode == BindingMode::Modal {
            assert(layers[1].1.contains(binding));
        } else if bound(keys.list_navigation, chord) is Some {
            assert(layers[1].1.contains(binding));
        } else if bound(keys.text_edit, chord) is Some {
            assert(layers[2].1.contains(binding));
        } else {
            assert(layers[3].1.contains(binding));
        }
    }
}

/// The bindings that apply on a screen.
pub open spec fn mode_of(mode: ModeV) -> BindingMode {
    match mode {
        ModeV::RepoSelect => BindingMode::Repo,
        ModeV::BranchSelect(_) => BindingMode::Branch,
        ModeV::SelectBaseBranch { .. } => BindingMode::BaseBranch,
        _ => BindingMode::Modal,
    }
}

impl KeysConfig {
    /// The bindings that apply on a screen.
    pub fn mode_for(mode: &Mode) -> (bindings: BindingMode)
        ensures
            bindings == mode_of(mode.deep_view()),
    {
        match mode {
            Mode::RepoSelect => BindingMode::Repo,
            Mode::BranchSelect(_) => BindingMode::Branch,
            Mode::SelectBaseBranch { .. } => BindingMode::BaseBranch,
            _ => BindingMode::Modal,
        }
    }
}

} // verus!
