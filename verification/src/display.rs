//! Text that is safe to show on a terminal.

use crate::text::{chars_of, control_char, is_control};
use vstd::prelude::*;
use vstd::string::*;

verus! {

/// A digit of a hexadecimal number.
pub open spec fn hex_digit(value: int) -> char {
    if value < 10 {
        (('0' as u32) + value) as char
    } else {
        (('a' as u32) + value - 10) as char
    }
}

/// Hexadecimal digits of a number, without leading zeros.
pub open spec fn hex(value: nat) -> Seq<char>
    decreases value,
{
    if value < 16 {
        seq![hex_digit(value as int)]
    } else {
        hex(value / 16).push(hex_digit((value % 16) as int))
    }
}

/// How a control character is written: by its short escape where it has one, else by its
/// code.
pub open spec fn escaped(c: char) -> Seq<char> {
    if c == '\t' {
        "\\t"@
    } else if c == '\r' {
        "\\r"@
    } else if c == '\n' {
        "\\n"@
    } else {
        "\\u{"@ + hex(c as u32 as nat) + "}"@
    }
}

/// A text with its control characters made visible.
pub open spec fn sanitized(text: Seq<char>) -> Seq<char>
    decreases text.len(),
{
    if text.len() == 0 {
        text
    } else if control_char(text.last()) {
        sanitized(text.drop_last()) + escaped(text.last())
    } else {
        sanitized(text.drop_last()).push(text.last())
    }
}

fn push_hex(text: &mut String, value: u32)
    requires
        value < 0x100,
    ensures
        final(text)@ == old(text)@ + hex(value as nat),
{
    let digits: Vec<char> = vec![
        '0',
        '1',
        '2',
        '3',
        '4',
        '5',
        '6',
        '7',
        '8',
        '9',
        'a',
        'b',
        'c',
        'd',
        'e',
        'f',
    ];
    assert forall|i: int| 0 <= i < 16 implies digits@[i] == hex_digit(i) by {}
    let ghost start = text@;
    if value >= 16 {
        text.push(digits[(value / 16) as usize]);
    }
    text.push(digits[(value % 16) as usize]);
    proof {
        reveal_with_fuel(hex, 2);
        assert(text@ =~= start + hex(value as nat));
    }
}

/// The text with its control characters written as visible escapes.
pub fn sanitize(value: &str) -> (text: String)
    ensures
        text@ == sanitized(value@),
        (forall|i: int| 0 <= i < value@.len() ==> !control_char(value@[i])) ==> text@ == value@,
{
    let chars = chars_of(value);
    let mut text = String::new();
    let mut i: usize = 0;
    while i < chars.len()
        invariant
            i <= chars.len(),
            text@ == sanitized(chars@.take(i as int)),
        decreases chars.len() - i,
    {
        let character = chars[i];
        proof {
            assert(chars@.take(i + 1).drop_last() =~= chars@.take(i as int));
            assert(chars@.take(i + 1).last() == character);
        }
        if is_control(character) {
            let ghost before = text@;
            if character == '\t' {
                text.push_str("\\t");
            } else if character == '\r' {
                text.push_str("\\r");
            } else if character == '\n' {
                text.push_str("\\n");
            } else {
                text.push_str("\\u{");
                push_hex(&mut text, character as u32);
                text.push_str("}");
            }
            assert(text@ =~= before + escaped(character));
        } else {
            text.push(character);
        }
        i = i + 1;
    }
    assert(chars@.take(chars@.len() as int) =~= chars@);
    proof {
        if forall|k: int| 0 <= k < value@.len() ==> !control_char(value@[k]) {
            lemma_plain_text_is_kept(value@);
        }
    }
    text
}

/// A text without control characters is shown as it is.
pub proof fn lemma_plain_text_is_kept(text: Seq<char>)
    requires
        forall|i: int| 0 <= i < text.len() ==> !control_char(text[i]),
    ensures
        sanitized(text) == text,
    decreases text.len(),
{
    if text.len() > 0 {
        lemma_plain_text_is_kept(text.drop_last());
        assert(text.drop_last().push(text.last()) =~= text);
    }
}

proof fn lemma_hex_is_plain(value: nat)
    ensures
        forall|i: int| 0 <= i < hex(value).len() ==> !control_char(#[trigger] hex(value)[i]),
    decreases value,
{
    if value >= 16 {
        let before = hex(value / 16);
        lemma_hex_is_plain(value / 16);
        assert forall|i: int| 0 <= i < hex(value).len() implies !control_char(
            #[trigger] hex(value)[i],
        ) by {
            if i < before.len() {
                assert(hex(value)[i] == before[i]);
            }
        }
    }
}

proof fn lemma_escaped_is_plain(c: char)
    ensures
        forall|i: int| 0 <= i < escaped(c).len() ==> !control_char(#[trigger] escaped(c)[i]),
{
    reveal_strlit("\\t");
    reveal_strlit("\\r");
    reveal_strlit("\\n");
    reveal_strlit("\\u{");
    reveal_strlit("}");
    lemma_hex_is_plain(c as u32 as nat);
    let digits = hex(c as u32 as nat);
    if c != '\t' && c != '\r' && c != '\n' {
        assert forall|i: int| 0 <= i < escaped(c).len() implies !control_char(
            #[trigger] escaped(c)[i],
        ) by {
            if i < 3 {
            } else if i < 3 + digits.len() {
                assert(escaped(c)[i] == digits[i - 3]);
            }
        }
    }
}

/// What is shown holds no control characters, whatever the text holds.
pub proof fn lemma_sanitized_is_plain(text: Seq<char>)
    ensures
        forall|i: int| 0 <= i < sanitized(text).len() ==> !control_char(#[trigger] sanitized(text)[i]),
    decreases text.len(),
{
    if text.len() > 0 {
        lemma_sanitized_is_plain(text.drop_last());
        let before = sanitized(text.drop_last());
        let last = text.last();
        let out = sanitized(text);
        if control_char(last) {
            lemma_escaped_is_plain(last);
            assert forall|i: int| 0 <= i < out.len() implies !control_char(#[trigger] out[i]) by {
                if i < before.len() {
                    assert(out[i] == before[i]);
                } else {
                    assert(out[i] == escaped(last)[i - before.len()]);
                }
            }
        } else {
            assert forall|i: int| 0 <= i < out.len() implies !control_char(#[trigger] out[i]) by {
                if i < before.len() {
                    assert(out[i] == before[i]);
                }
            }
        }
    }
}

/// Showing what is shown already changes nothing.
pub proof fn lemma_sanitized_twice(text: Seq<char>)
    ensures
        sanitized(sanitized(text)) == sanitized(text),
{
    lemma_sanitized_is_plain(text);
    lemma_plain_text_is_kept(sanitized(text));
}

} // verus!
