//! Writing keys and commands as a configuration holds them; what is written can be read back.

use crate::config::keys::{chord_delimiter, chord_display, chord_spelled, command_name, command_named, default_keys, key_display, key_of, modifier_named, modifiers_named, Binding, Command, KeyChord, KeysConfig, KeysConfigV, Modifier};
use crate::keyboard::{KeyCode, KeyModifiers};
use crate::text::{ascii_letter, ascii_lower, ascii_lowered, ascii_lowered_all, ascii_raised, ascii_upper, lemma_pieces_nonempty, owned, pieces};
use vstd::prelude::*;
use vstd::string::*;

verus! {

/// The name of a command stands for the command.
pub proof fn lemma_command_name_reads_back(command: Command)
    ensures
        command_named(command_name(command)) == Some(command),
{
    reveal_strlit("noop");
    reveal_strlit("none");
    reveal_strlit("unbound");
    reveal_strlit("quit");
    reveal_strlit("help");
    reveal_strlit("show_help");
    reveal_strlit("dismiss_toast");
    reveal_strlit("move_up");
    reveal_strlit("move_down");
    reveal_strlit("open");
    reveal_strlit("branches_view");
    reveal_strlit("enter_repo");
    reveal_strlit("back");
    reveal_strlit("go_back");
    reveal_strlit("new_branch");
    reveal_strlit("delete");
    reveal_strlit("delete_worktree");
    reveal_strlit("clear");
    reveal_strlit("clear_query");
    reveal_strlit("backspace");
    reveal_strlit("delete_word");
    reveal_strlit("cursor_left");
    reveal_strlit("cursor_right");
    assert("noop"@.len() == 4 && "noop"@[0] == 'n');
    assert("none"@.len() == 4 && "none"@[0] == 'n');
    assert("unbound"@.len() == 7 && "unbound"@[0] == 'u' && "unbound"@[5] == 'n');
    assert("quit"@.len() == 4 && "quit"@[0] == 'q');
    assert("help"@.len() == 4 && "help"@[0] == 'h');
    assert("show_help"@.len() == 9 && "show_help"@[0] == 's' && "show_help"@[5] == 'h');
    assert("dismiss_toast"@.len() == 13 && "dismiss_toast"@[0] == 'd' && "dismiss_toast"@[5] == 's');
    assert("move_up"@.len() == 7 && "move_up"@[0] == 'm' && "move_up"@[5] == 'u');
    assert("move_down"@.len() == 9 && "move_down"@[0] == 'm' && "move_down"@[5] == 'd');
    assert("open"@.len() == 4 && "open"@[0] == 'o');
    assert("branches_view"@.len() == 13 && "branches_view"@[0] == 'b' && "branches_view"@[5] == 'h');
    assert("enter_repo"@.len() == 10 && "enter_repo"@[0] == 'e' && "enter_repo"@[5] == '_');
    assert("back"@.len() == 4 && "back"@[0] == 'b');
    assert("go_back"@.len() == 7 && "go_back"@[0] == 'g' && "go_back"@[5] == 'c');
    assert("new_branch"@.len() == 10 && "new_branch"@[0] == 'n' && "new_branch"@[5] == 'r');
    assert("delete"@.len() == 6 && "delete"@[0] == 'd' && "delete"@[5] == 'e');
    assert("delete_worktree"@.len() == 15 && "delete_worktree"@[0] == 'd' && "delete_worktree"@[5] == 'e');
    assert("clear"@.len() == 5 && "clear"@[0] == 'c');
    assert("clear_query"@.len() == 11 && "clear_query"@[0] == 'c' && "clear_query"@[5] == '_');
    assert("backspace"@.len() == 9 && "backspace"@[0] == 'b' && "backspace"@[5] == 'p');
    assert("delete_word"@.len() == 11 && "delete_word"@[0] == 'd' && "delete_word"@[5] == 'e');
    assert("cursor_left"@.len() == 11 && "cursor_left"@[0] == 'c' && "cursor_left"@[5] == 'r');
    assert("cursor_right"@.len() == 12 && "cursor_right"@[0] == 'c' && "cursor_right"@[5] == 'r');
}

/// A text without the separator is one piece.
proof fn lemma_one_piece(token: Seq<char>, separator: char)
    requires
        forall|i: int| 0 <= i < token.len() ==> token[i] != separator,
    ensures
        pieces(token, separator) == seq![token],
    decreases token.len(),
{
    if token.len() == 0 {
        assert(token =~= Seq::empty());
    } else {
        lemma_one_piece(token.drop_last(), separator);
        assert(token.drop_last().push(token.last()) =~= token);
        assert(pieces(token, separator) =~= seq![token]);
    }
}

/// What stands before the first separator is the first piece.
proof fn lemma_piece_in_front(token: Seq<char>, separator: char, rest: Seq<char>)
    requires
        forall|i: int| 0 <= i < token.len() ==> token[i] != separator,
    ensures
        pieces(token.push(separator) + rest, separator) == seq![token] + pieces(rest, separator),
    decreases rest.len(),
{
    let all = token.push(separator) + rest;
    lemma_pieces_nonempty(rest, separator);
    if rest.len() == 0 {
        lemma_one_piece(token, separator);
        assert(all.drop_last() =~= token);
        assert(pieces(all, separator) =~= seq![token] + pieces(rest, separator));
    } else {
        let shorter = rest.drop_last();
        lemma_piece_in_front(token, separator, shorter);
        lemma_pieces_nonempty(shorter, separator);
        assert(all.drop_last() =~= token.push(separator) + shorter);
        assert(pieces(all, separator) =~= seq![token] + pieces(rest, separator));
    }
}

/// The modifiers that names give are those that can be named.
proof fn lemma_named_modifiers(tokens: Seq<Seq<char>>)
    ensures
        modifiers_named(tokens) matches Ok(modifiers) ==> !modifiers.other,
    decreases tokens.len(),
{
    if tokens.len() > 0 {
        lemma_named_modifiers(tokens.drop_last());
    }
}

/// The names of modifiers, in the order in which they are written.
pub open spec fn modifier_tokens(modifiers: KeyModifiers) -> Seq<Seq<char>> {
    let control = if modifiers.control {
        seq!["ctrl"@]
    } else {
        Seq::empty()
    };
    let alt = if modifiers.alt {
        control.push("alt"@)
    } else {
        control
    };
    if modifiers.shift {
        alt.push("shift"@)
    } else {
        alt
    }
}

proof fn lemma_modifier_words()
    ensures
        modifier_named("ctrl"@) == Some(Modifier::Control),
        modifier_named("alt"@) == Some(Modifier::Alt),
        modifier_named("shift"@) == Some(Modifier::Shift),
        modifier_named(Seq::empty()) is None,
        ascii_lowered_all("ctrl"@) == "ctrl"@,
        ascii_lowered_all("alt"@) == "alt"@,
        ascii_lowered_all("shift"@) == "shift"@,
{
    reveal_strlit("c");
    reveal_strlit("ctrl");
    reveal_strlit("control");
    reveal_strlit("a");
    reveal_strlit("alt");
    reveal_strlit("m");
    reveal_strlit("s");
    reveal_strlit("shift");
    assert("c"@.len() == 1 && "c"@[0] == 'c');
    assert("ctrl"@.len() == 4 && "ctrl"@[0] == 'c');
    assert("control"@.len() == 7 && "control"@[0] == 'c');
    assert("a"@.len() == 1 && "a"@[0] == 'a');
    assert("alt"@.len() == 3 && "alt"@[0] == 'a');
    assert("m"@.len() == 1 && "m"@[0] == 'm');
    assert("s"@.len() == 1 && "s"@[0] == 's');
    assert("shift"@.len() == 5 && "shift"@[0] == 's');
    assert(ascii_lowered_all("ctrl"@) =~= "ctrl"@);
    assert(ascii_lowered_all("alt"@) =~= "alt"@);
    assert(ascii_lowered_all("shift"@) =~= "shift"@);
}

proof fn lemma_tokens_name_modifiers(modifiers: KeyModifiers)
    requires
        !modifiers.other,
    ensures
        modifiers_named(modifier_tokens(modifiers)) == Ok::<KeyModifiers, Seq<char>>(modifiers),
{
    lemma_modifier_words();
    let none = KeyModifiers::none_spec();
    let control = if modifiers.control {
        seq!["ctrl"@]
    } else {
        Seq::empty()
    };
    let after_control = KeyModifiers { control: modifiers.control, ..none };
    assert(modifiers_named(control) == Ok::<KeyModifiers, Seq<char>>(after_control)) by {
        reveal_with_fuel(modifiers_named, 2);
        if modifiers.control {
            assert(control.drop_last() =~= Seq::<Seq<char>>::empty());
        }
    }
    let alt = if modifiers.alt {
        control.push("alt"@)
    } else {
        control
    };
    let after_alt = KeyModifiers { alt: modifiers.alt, ..after_control };
    assert(modifiers_named(alt) == Ok::<KeyModifiers, Seq<char>>(after_alt)) by {
        if modifiers.alt {
            assert(alt.drop_last() =~= control);
        }
    }
    let shift = modifier_tokens(modifiers);
    if modifiers.shift {
        assert(shift.drop_last() =~= alt);
    }
}

/// A name of a key that is written as a word.
pub open spec fn key_word(code: KeyCode) -> bool {
    !(code is Char) || code == KeyCode::Char(' ')
}

/// The keys that are shown by an arrow, which spells no key.
pub open spec fn shown_by_arrow(code: KeyCode) -> bool {
    code is Up || code is Down || code is Left || code is Right
}

/// How a key is written in a configuration: as it is shown, but for the arrows.
pub open spec fn written_key(code: KeyCode) -> Seq<char> {
    match code {
        KeyCode::Up => "up"@,
        KeyCode::Down => "down"@,
        KeyCode::Left => "left"@,
        KeyCode::Right => "right"@,
        _ => key_display(code),
    }
}

/// The modifiers of a chord as they are written in front of its key.
pub open spec fn written_modifiers(modifiers: KeyModifiers) -> Seq<char> {
    let control = if modifiers.control {
        "ctrl+"@
    } else {
        Seq::empty()
    };
    let alt = if modifiers.alt {
        "alt+"@
    } else {
        Seq::empty()
    };
    let shift = if modifiers.shift {
        "shift+"@
    } else {
        Seq::empty()
    };
    control + alt + shift
}

/// How a chord is written in a configuration.
pub open spec fn chord_written(chord: KeyChord) -> Seq<char> {
    written_modifiers(chord.modifiers) + written_key(chord.code)
}

/// The key that is written is read back under the same modifiers.
proof fn lemma_key_reads_back(code: KeyCode, modifiers: KeyModifiers)
    requires
        !(code is BackTab),
        !(code is Other),
        code matches KeyCode::Char(c) ==> c == ' ' || if modifiers.shift {
            ascii_upper(c)
        } else {
            !ascii_upper(c)
        },
    ensures
        key_of(written_key(code), modifiers) == Ok::<KeyCode, Seq<char>>(code),
        key_word(code) ==> written_key(code).len() > 1,
        key_word(code) ==> forall|i: int|
            0 <= i < written_key(code).len() ==> written_key(code)[i] != '+' && written_key(
                code,
            )[i] != '-',
{
    reveal_strlit("enter");
    reveal_strlit("return");
    reveal_strlit("esc");
    reveal_strlit("escape");
    reveal_strlit("tab");
    reveal_strlit("backspace");
    reveal_strlit("del");
    reveal_strlit("delete");
    reveal_strlit("up");
    reveal_strlit("down");
    reveal_strlit("left");
    reveal_strlit("right");
    reveal_strlit("home");
    reveal_strlit("end");
    reveal_strlit("pageup");
    reveal_strlit("page_up");
    reveal_strlit("pagedown");
    reveal_strlit("page_down");
    reveal_strlit("space");
    assert("enter"@.len() == 5 && "enter"@[0] == 'e' && "enter"@[1] == 'n');
    assert("return"@.len() == 6 && "return"@[0] == 'r' && "return"@[1] == 'e');
    assert("esc"@.len() == 3 && "esc"@[0] == 'e' && "esc"@[1] == 's');
    assert("escape"@.len() == 6 && "escape"@[0] == 'e' && "escape"@[1] == 's');
    assert("tab"@.len() == 3 && "tab"@[0] == 't' && "tab"@[1] == 'a');
    assert("backspace"@.len() == 9 && "backspace"@[0] == 'b' && "backspace"@[1] == 'a');
    assert("del"@.len() == 3 && "del"@[0] == 'd' && "del"@[1] == 'e');
    assert("delete"@.len() == 6 && "delete"@[0] == 'd' && "delete"@[1] == 'e');
    assert("up"@.len() == 2 && "up"@[0] == 'u' && "up"@[1] == 'p');
    assert("down"@.len() == 4 && "down"@[0] == 'd' && "down"@[1] == 'o');
    assert("left"@.len() == 4 && "left"@[0] == 'l' && "left"@[1] == 'e');
    assert("right"@.len() == 5 && "right"@[0] == 'r' && "right"@[1] == 'i');
    assert("home"@.len() == 4 && "home"@[0] == 'h' && "home"@[1] == 'o');
    assert("end"@.len() == 3 && "end"@[0] == 'e' && "end"@[1] == 'n');
    assert("pageup"@.len() == 6 && "pageup"@[0] == 'p' && "pageup"@[1] == 'a');
    assert("page_up"@.len() == 7 && "page_up"@[0] == 'p' && "page_up"@[1] == 'a');
    assert("pagedown"@.len() == 8 && "pagedown"@[0] == 'p' && "pagedown"@[1] == 'a');
    assert("page_down"@.len() == 9 && "page_down"@[0] == 'p' && "page_down"@[1] == 'a');
    assert("space"@.len() == 5 && "space"@[0] == 's' && "space"@[1] == 'p');
    let shown = written_key(code);
    if key_word(code) {
        assert(ascii_lowered_all(shown) =~= shown);
    } else {
        let c = code->Char_0;
        assert(shown == seq![ascii_lowered(c)]);
        assert(ascii_lowered_all(shown).len() == 1);
        assert(ascii_lowered(ascii_lowered(c)) == ascii_lowered(c));
        if modifiers.shift {
            assert(ascii_lower(ascii_lowered(c)));
            assert(ascii_raised(ascii_lowered(c)) == c);
        }
    }
}

/// A chord that some text spells is read back from how it is written, unless what separates
/// the tokens is its key: a hyphen does, and a plus does behind a modifier.
pub proof fn lemma_written_chord_reads_back(text: Seq<char>, chord: KeyChord)
    requires
        chord_spelled(text) == Ok::<KeyChord, Seq<char>>(chord),
        chord.code != KeyCode::Char('-'),
        chord.code == KeyCode::Char('+') ==> chord.modifiers == KeyModifiers::none_spec(),
    ensures
        chord_spelled(chord_written(chord)) == Ok::<KeyChord, Seq<char>>(chord),
{
    let spelled = pieces(text, chord_delimiter(text));
    lemma_named_modifiers(spelled.drop_last());
    lemma_spelled_key(spelled.last(), chord.modifiers);
    lemma_key_reads_back(chord.code, chord.modifiers);
    lemma_modifier_words();
    let modifiers = chord.modifiers;
    let key = written_key(chord.code);
    let shown = chord_written(chord);
    let tokens = modifier_tokens(modifiers);
    lemma_tokens_name_modifiers(modifiers);
    if key_word(chord.code) {
    } else {
        assert(key.len() == 1);
    }
    if modifiers == KeyModifiers::none_spec() {
        assert(shown =~= key);
        assert(forall|i: int| 0 <= i < key.len() ==> key[i] != '-');
        lemma_one_piece(key, '-');
        if chord.code == KeyCode::Char('+') {
            lemma_piece_in_front(Seq::empty(), '+', Seq::empty());
            assert(key =~= Seq::<char>::empty().push('+') + Seq::<char>::empty());
            assert(ascii_lowered_all(Seq::<char>::empty()) =~= Seq::<char>::empty());
            assert(pieces(shown, '+')[0] == Seq::<char>::empty());
        } else {
            lemma_one_piece(key, '+');
        }
        assert(pieces(shown, '-') =~= seq![key]);
        assert(pieces(shown, '-').drop_last() =~= tokens);
    } else {
        lemma_one_piece(key, '+');
        lemma_shown_pieces(modifiers, key);
        assert(pieces(shown, '+') == tokens.push(key));
        assert(tokens.push(key).drop_last() =~= tokens);
        assert(tokens.len() > 0);
    }
}

/// What a token names as a key.
proof fn lemma_spelled_key(token: Seq<char>, modifiers: KeyModifiers)
    ensures
        key_of(token, modifiers) matches Ok(code) ==> !(code is BackTab) && !(code is Other) && (
        code matches KeyCode::Char(c) ==> c == ' ' || if modifiers.shift {
            ascii_upper(c)
        } else {
            !ascii_upper(c)
        }),
{
    if token.len() == 1 {
        let c = token[0];
        if ascii_letter(c) {
            assert(ascii_upper(ascii_raised(c)));
        }
        assert(!ascii_upper(ascii_lowered(c)));
    }
}

/// The pieces of a chord with modifiers are their names and the key.
proof fn lemma_shown_pieces(modifiers: KeyModifiers, key: Seq<char>)
    requires
        pieces(key, '+') == seq![key],
    ensures
        pieces(written_modifiers(modifiers) + key, '+') == modifier_tokens(modifiers).push(key),
{
    reveal_strlit("ctrl+");
    reveal_strlit("alt+");
    reveal_strlit("shift+");
    reveal_strlit("ctrl");
    reveal_strlit("alt");
    reveal_strlit("shift");
    assert("ctrl+"@ =~= "ctrl"@.push('+'));
    assert("alt+"@ =~= "alt"@.push('+'));
    assert("shift+"@ =~= "shift"@.push('+'));
    let control = if modifiers.control {
        "ctrl+"@
    } else {
        Seq::empty()
    };
    let alt = if modifiers.alt {
        "alt+"@
    } else {
        Seq::empty()
    };
    let shift = if modifiers.shift {
        "shift+"@
    } else {
        Seq::empty()
    };
    let behind_alt = shift + key;
    let after_alt = if modifiers.shift {
        seq!["shift"@, key]
    } else {
        seq![key]
    };
    assert(pieces(behind_alt, '+') == after_alt) by {
        if modifiers.shift {
            lemma_piece_in_front("shift"@, '+', key);
            assert(seq!["shift"@] + seq![key] =~= after_alt);
        } else {
            assert(behind_alt =~= key);
        }
    }
    let behind_control = alt + behind_alt;
    let after_control = if modifiers.alt {
        seq!["alt"@] + after_alt
    } else {
        after_alt
    };
    assert(pieces(behind_control, '+') == after_control) by {
        if modifiers.alt {
            lemma_piece_in_front("alt"@, '+', behind_alt);
        } else {
            assert(behind_control =~= behind_alt);
        }
    }
    let whole = written_modifiers(modifiers) + key;
    assert(whole =~= control + behind_control);
    if modifiers.control {
        lemma_piece_in_front("ctrl"@, '+', behind_control);
    } else {
        assert(whole =~= behind_control);
    }
    assert(pieces(whole, '+') =~= modifier_tokens(modifiers).push(key));
}

/// A chord is read back from how it is shown to people as well, if no arrow is shown.
pub proof fn lemma_displayed_chord_reads_back(text: Seq<char>, chord: KeyChord)
    requires
        chord_spelled(text) == Ok::<KeyChord, Seq<char>>(chord),
        !shown_by_arrow(chord.code),
        chord.code != KeyCode::Char('-'),
        chord.code == KeyCode::Char('+') ==> chord.modifiers == KeyModifiers::none_spec(),
    ensures
        chord_spelled(chord_display(chord)) == Ok::<KeyChord, Seq<char>>(chord),
{
    lemma_written_chord_reads_back(text, chord);
    assert(chord_display(chord) =~= chord_written(chord));
}

/// Writes a chord as a configuration holds it.
pub fn write_chord(chord: &KeyChord) -> (text: String)
    ensures
        text@ == chord_written(*chord),
{
    let word = match chord.code {
        KeyCode::Up => "up",
        KeyCode::Down => "down",
        KeyCode::Left => "left",
        KeyCode::Right => "right",
        _ => {
            let text = chord.to_text();
            assert(text@ =~= chord_written(*chord));
            return text;
        },
    };
    let mut text = String::new();
    if chord.modifiers.control {
        text.push_str("ctrl+");
    }
    if chord.modifiers.alt {
        text.push_str("alt+");
    }
    if chord.modifiers.shift {
        text.push_str("shift+");
    }
    assert(text@ =~= written_modifiers(chord.modifiers));
    text.push_str(word);
    text
}

/// One binding on a line of its own.
pub open spec fn binding_line(binding: Binding) -> Seq<char> {
    "\""@ + chord_written(binding.chord) + "\" = \""@ + command_name(binding.command) + "\"\n"@
}

pub open spec fn binding_lines(bindings: Seq<Binding>) -> Seq<char>
    decreases bindings.len(),
{
    if bindings.len() == 0 {
        Seq::empty()
    } else {
        binding_lines(bindings.drop_last()) + binding_line(bindings.last())
    }
}

/// The bindings of a layer under its name.
pub open spec fn layer_text(name: Seq<char>, bindings: Seq<Binding>) -> Seq<char> {
    "[keys."@ + name + "]\n"@ + binding_lines(bindings)
}

/// All bindings, layer by layer, as a block of a document.
pub open spec fn keys_block(keys: KeysConfigV) -> Seq<char> {
    "```toml\n"@ + layer_text("general"@, keys.general) + "\n"@ + layer_text(
        "text_edit"@,
        keys.text_edit,
    ) + "\n"@ + layer_text("list_navigation"@, keys.list_navigation) + "\n"@ + layer_text(
        "modal"@,
        keys.modal,
    ) + "\n"@ + layer_text("repo_select"@, keys.repo_select) + "\n"@ + layer_text(
        "branch_select"@,
        keys.branch_select,
    ) + "```\n"@
}

fn push_layer(text: &mut String, name: &str, bindings: &Vec<Binding>)
    ensures
        final(text)@ == old(text)@ + layer_text(name@, bindings@),
{
    let ghost start = text@;
    text.push_str("[keys.");
    text.push_str(name);
    text.push_str("]\n");
    let ghost head = "[keys."@ + name@ + "]\n"@;
    let mut i: usize = 0;
    assert(text@ =~= start + (head + binding_lines(bindings@.take(0))));
    while i < bindings.len()
        invariant
            i <= bindings.len(),
            text@ == start + (head + binding_lines(bindings@.take(i as int))),
        decreases bindings.len() - i,
    {
        let ghost before = text@;
        proof {
            assert(bindings@.take(i + 1).drop_last() =~= bindings@.take(i as int));
            assert(bindings@.take(i + 1).last() == bindings@[i as int]);
        }
        let chord = write_chord(&bindings[i].chord);
        text.push_str("\"");
        text.push_str(chord.as_str());
        text.push_str("\" = \"");
        text.push_str(bindings[i].command.name());
        text.push_str("\"\n");
        i = i + 1;
        assert(text@ =~= before + binding_line(bindings@[i - 1]));
        assert(text@ =~= start + (head + binding_lines(bindings@.take(i as int))));
    }
    assert(bindings@.take(bindings@.len() as int) =~= bindings@);
}

/// Writes bindings down as a block of a document.
pub fn write_keys(keys: &KeysConfig) -> (text: String)
    ensures
        text@ == keys_block(keys.deep_view()),
{
    let mut text = owned("```toml\n");
    push_layer(&mut text, "general", &keys.general);
    text.push_str("\n");
    push_layer(&mut text, "text_edit", &keys.text_edit);
    text.push_str("\n");
    push_layer(&mut text, "list_navigation", &keys.list_navigation);
    text.push_str("\n");
    push_layer(&mut text, "modal", &keys.modal);
    text.push_str("\n");
    push_layer(&mut text, "repo_select", &keys.repo_select);
    text.push_str("\n");
    push_layer(&mut text, "branch_select", &keys.branch_select);
    text.push_str("```\n");
    text
}

/// The bindings that apply where a configuration has none, as a block of a document.
pub fn default_keys_toml() -> (text: String)
    ensures
        text@ == keys_block(default_keys()),
{
    write_keys(&KeysConfig::default())
}

} // verus!
