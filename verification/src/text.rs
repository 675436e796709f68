//! Text primitives: characters, slices of text, numbers and the Unicode tables that outside
//! libraries hold.

use unicode_segmentation::UnicodeSegmentation;
use unicode_width::UnicodeWidthStr;
use vstd::prelude::*;
use vstd::utf8::*;
use vstd::string::*;

verus! {

/// `String::push` appends one character.
pub assume_specification[ String::push ](text: &mut String, character: char)
    ensures
        final(text)@ == old(text)@.push(character),
;

/// `String::push_str` appends a string slice.
pub assume_specification[ String::push_str ](text: &mut String, suffix: &str)
    ensures
        final(text)@ == old(text)@ + suffix@,
;

/// What `str::to_lowercase` makes of a text.
pub uninterp spec fn lowercase_of(text: Seq<char>) -> Seq<char>;

/// Calls `str::to_lowercase`, whose result depends on the text alone.
#[verifier::external_body]
pub(crate) fn lowercase(text: &str) -> (lower: String)
    ensures
        lower@ == lowercase_of(text@),
{
    text.to_lowercase()
}

/// Calls `std::str::from_utf8`, which accepts exactly the well-formed UTF-8 byte strings and
/// hands back the text that they encode.
#[verifier::external_body]
pub(crate) fn decode(bytes: &[u8]) -> (text: Option<String>)
    ensures
        match text {
            Some(value) => valid_utf8(bytes@) && value@ == decode_utf8(bytes@),
            None => !valid_utf8(bytes@),
        },
{
    std::str::from_utf8(bytes).ok().map(|text| text.to_owned())
}

/// A text in quotes, with escapes for what does not print.
pub uninterp spec fn quoted_text(text: Seq<char>) -> Seq<char>;

/// The `Debug` form of a `str`. It is a function of the text alone.
#[verifier::external_body]
pub(crate) fn quote(text: &str) -> (quoted: String)
    ensures
        quoted@ == quoted_text(text@),
{
    format!("{text:?}")
}

/// What `String::from_utf8_lossy` makes of a byte string.
pub uninterp spec fn lossy_text(bytes: Seq<u8>) -> Seq<char>;

/// Calls `String::from_utf8_lossy`, which decodes well-formed bytes as they are and replaces
/// the rest; the result depends on the bytes alone.
#[verifier::external_body]
pub(crate) fn decode_lossy(bytes: &[u8]) -> (text: String)
    ensures
        text@ == lossy_text(bytes@),
        valid_utf8(bytes@) ==> text@ == decode_utf8(bytes@),
{
    String::from_utf8_lossy(bytes).into_owned()
}

/// All clusters in a row.
pub open spec fn flattened(clusters: Seq<Seq<char>>) -> Seq<char>
    decreases clusters.len(),
{
    if clusters.len() == 0 {
        Seq::empty()
    } else {
        flattened(clusters.drop_last()) + clusters.last()
    }
}

/// The extended grapheme clusters that `unicode_segmentation` finds in a text.
pub uninterp spec fn graphemes_of(text: Seq<char>) -> Seq<Seq<char>>;

/// Calls `UnicodeSegmentation::graphemes` for extended clusters. The clusters depend on the
/// text alone, none of them is empty, and together they are the text.
#[verifier::external_body]
pub(crate) fn graphemes(text: &str) -> (clusters: Vec<String>)
    ensures
        clusters.deep_view() == graphemes_of(text@),
        flattened(clusters.deep_view()) == text@,
        forall|i: int| 0 <= i < clusters@.len() ==> (#[trigger] clusters@[i])@.len() > 0,
{
    text.graphemes(true).map(|cluster| cluster.to_owned()).collect()
}

/// The number of terminal columns that `unicode_width` gives a text.
pub uninterp spec fn columns_of(text: Seq<char>) -> nat;

/// Calls `UnicodeWidthStr::width`, whose result depends on the text alone.
#[verifier::external_body]
pub(crate) fn columns(text: &str) -> (width: usize)
    ensures
        width as nat == columns_of(text@),
{
    text.width()
}

/// How many bytes a text takes in UTF-8.
pub open spec fn byte_len(text: Seq<char>) -> nat {
    encode_utf8(text).len()
}

/// Encoding distributes over concatenation.
pub proof fn lemma_encode_concat(left: Seq<char>, right: Seq<char>)
    ensures
        encode_utf8(left + right) == encode_utf8(left) + encode_utf8(right),
        byte_len(left + right) == byte_len(left) + byte_len(right),
    decreases left.len(),
{
    if left.len() == 0 {
        assert(left + right =~= right);
        assert(encode_utf8(left) + encode_utf8(right) =~= encode_utf8(right));
    } else {
        assert((left + right).drop_first() =~= left.drop_first() + right);
        lemma_encode_concat(left.drop_first(), right);
        assert(encode_utf8(left + right) =~= encode_utf8(left) + encode_utf8(right));
    }
}

/// The length of a text in bytes.
pub fn length(text: &str) -> (bytes: usize)
    ensures
        bytes as nat == byte_len(text@),
{
    text.as_bytes().len()
}

/// The characters of a text, in order.
pub fn chars_of(text: &str) -> (chars: Vec<char>)
    ensures
        chars@ == text@,
{
    let mut chars: Vec<char> = Vec::new();
    for character in iter: text.chars()
        invariant
            iter.seq() == text@,
            chars@ == text@.take(iter.index() as int),
    {
        chars.push(character);
        assert(text@.take(iter.index() as int + 1) =~= text@.take(iter.index() as int).push(
            character,
        ));
    }
    assert(text@.take(text@.len() as int) =~= text@);
    chars
}

/// The text made of the given characters.
pub fn text_of(chars: &[char]) -> (text: String)
    ensures
        text@ == chars@,
{
    let mut text = String::new();
    let mut i: usize = 0;
    while i < chars.len()
        invariant
            i <= chars.len(),
            text@ == chars@.take(i as int),
        decreases chars.len() - i,
    {
        text.push(chars[i]);
        i = i + 1;
        assert(chars@.take(i as int) =~= chars@.take(i - 1).push(chars@[i - 1]));
    }
    assert(chars@.take(i as int) =~= chars@);
    text
}

/// An owned copy of a text.
pub fn owned(text: &str) -> (copy: String)
    ensures
        copy@ == text@,
{
    text.to_owned()
}

/// Two texts in a row.
pub fn concat(left: &str, right: &str) -> (text: String)
    ensures
        text@ == left@ + right@,
{
    let mut text = left.to_owned();
    text.push_str(right);
    text
}

/// Three texts in a row.
pub fn concat3(first: &str, second: &str, third: &str) -> (text: String)
    ensures
        text@ == first@ + second@ + third@,
{
    let mut text = first.to_owned();
    text.push_str(second);
    text.push_str(third);
    text
}

pub fn bytes_equal(left: &[u8], right: &[u8]) -> (same: bool)
    ensures
        same == (left@ == right@),
{
    if left.len() != right.len() {
        return false;
    }
    let mut i: usize = 0;
    while i < left.len()
        invariant
            i <= left.len(),
            left.len() == right.len(),
            left@.take(i as int) =~= right@.take(i as int),
        decreases left.len() - i,
    {
        if left[i] != right[i] {
            return false;
        }
        i = i + 1;
        assert(left@.take(i as int) =~= left@.take(i - 1).push(left@[i - 1]));
        assert(right@.take(i as int) =~= right@.take(i - 1).push(right@[i - 1]));
    }
    assert(left@.take(i as int) =~= left@);
    assert(right@.take(i as int) =~= right@);
    true
}

/// Whether two texts hold the same characters.
pub fn same_text(left: &str, right: &str) -> (same: bool)
    ensures
        same == (left@ == right@),
{
    proof {
        encode_utf8_decode_utf8(left@);
        encode_utf8_decode_utf8(right@);
    }
    bytes_equal(left.as_bytes(), right.as_bytes())
}

/// A copy of an optional text.
pub fn copy_optional_text(text: &Option<String>) -> (copy: Option<String>)
    ensures
        copy.deep_view() == text.deep_view(),
        copy == *text,
{
    match text {
        Some(value) => Some(value.clone()),
        None => None,
    }
}

/// The control characters of Unicode: the general category `Cc`.
pub open spec fn control_char(c: char) -> bool {
    c as u32 <= 0x1f || 0x7f <= c as u32 <= 0x9f
}

pub fn is_control(c: char) -> (answer: bool)
    ensures
        answer == control_char(c),
{
    let code = c as u32;
    code <= 0x1f || (0x7f <= code && code <= 0x9f)
}

/// The characters with Unicode's `White_Space` property.
pub open spec fn white_space(c: char) -> bool {
    let code = c as u32;
    ||| 0x9 <= code <= 0xd
    ||| code == 0x20
    ||| code == 0x85
    ||| code == 0xa0
    ||| code == 0x1680
    ||| 0x2000 <= code <= 0x200a
    ||| code == 0x2028
    ||| code == 0x2029
    ||| code == 0x202f
    ||| code == 0x205f
    ||| code == 0x3000
}

pub fn is_white_space(c: char) -> (answer: bool)
    ensures
        answer == white_space(c),
{
    let code = c as u32;
    (0x9 <= code && code <= 0xd) || code == 0x20 || code == 0x85 || code == 0xa0 || code == 0x1680
        || (0x2000 <= code && code <= 0x200a) || code == 0x2028 || code == 0x2029 || code == 0x202f
        || code == 0x205f || code == 0x3000
}

pub open spec fn ascii_upper(c: char) -> bool {
    'A' <= c <= 'Z'
}

pub open spec fn ascii_lower(c: char) -> bool {
    'a' <= c <= 'z'
}

pub open spec fn ascii_letter(c: char) -> bool {
    ascii_upper(c) || ascii_lower(c)
}

pub open spec fn ascii_digit(c: char) -> bool {
    '0' <= c <= '9'
}

/// Visible ASCII characters, the space excluded.
pub open spec fn ascii_graphic(c: char) -> bool {
    '!' <= c <= '~'
}

pub fn is_ascii_letter(c: char) -> (answer: bool)
    ensures
        answer == ascii_letter(c),
{
    ('A' <= c && c <= 'Z') || ('a' <= c && c <= 'z')
}

pub fn is_ascii_upper(c: char) -> (answer: bool)
    ensures
        answer == ascii_upper(c),
{
    'A' <= c && c <= 'Z'
}

pub fn is_ascii_digit(c: char) -> (answer: bool)
    ensures
        answer == ascii_digit(c),
{
    '0' <= c && c <= '9'
}

pub fn is_ascii_graphic(c: char) -> (answer: bool)
    ensures
        answer == ascii_graphic(c),
{
    '!' <= c && c <= '~'
}

/// An ASCII capital as its small letter, any other character as it is.
pub open spec fn ascii_lowered(c: char) -> char {
    if ascii_upper(c) {
        ((c as u32) + 32) as char
    } else {
        c
    }
}

/// An ASCII small letter as its capital, any other character as it is.
pub open spec fn ascii_raised(c: char) -> char {
    if ascii_lower(c) {
        ((c as u32) - 32) as char
    } else {
        c
    }
}

pub fn to_ascii_lower(c: char) -> (lowered: char)
    ensures
        lowered == ascii_lowered(c),
{
    if 'A' <= c && c <= 'Z' {
        let code: u8 = c as u8;
        (code + 32) as char
    } else {
        c
    }
}

pub fn to_ascii_upper(c: char) -> (raised: char)
    ensures
        raised == ascii_raised(c),
{
    if 'a' <= c && c <= 'z' {
        let code: u8 = c as u8;
        (code - 32) as char
    } else {
        c
    }
}

pub open spec fn ascii_lowered_all(text: Seq<char>) -> Seq<char> {
    text.map_values(|c: char| ascii_lowered(c))
}

pub fn ascii_lowercase(chars: &[char]) -> (lowered: String)
    ensures
        lowered@ == ascii_lowered_all(chars@),
{
    let mut lowered = String::new();
    let mut i: usize = 0;
    while i < chars.len()
        invariant
            i <= chars.len(),
            lowered@ == ascii_lowered_all(chars@.take(i as int)),
        decreases chars.len() - i,
    {
        lowered.push(to_ascii_lower(chars[i]));
        i = i + 1;
        assert(ascii_lowered_all(chars@.take(i as int)) =~= ascii_lowered_all(
            chars@.take(i - 1),
        ).push(ascii_lowered(chars@[i - 1])));
    }
    assert(chars@.take(i as int) =~= chars@);
    lowered
}

/// A text without its leading white space.
pub open spec fn trimmed_start(text: Seq<char>) -> Seq<char>
    decreases text.len(),
{
    if text.len() > 0 && white_space(text[0]) {
        trimmed_start(text.drop_first())
    } else {
        text
    }
}

/// A text without its trailing white space.
pub open spec fn trimmed_end(text: Seq<char>) -> Seq<char>
    decreases text.len(),
{
    if text.len() > 0 && white_space(text.last()) {
        trimmed_end(text.drop_last())
    } else {
        text
    }
}

/// A text without leading and trailing white space.
pub open spec fn trimmed(text: Seq<char>) -> Seq<char> {
    trimmed_end(trimmed_start(text))
}

pub fn trim_chars(chars: &[char]) -> (trimmed_text: Vec<char>)
    ensures
        trimmed_text@ == trimmed(chars@),
{
    let mut start: usize = 0;
    assert(chars@.skip(0) =~= chars@);
    while start < chars.len() && is_white_space(chars[start])
        invariant
            start <= chars.len(),
            trimmed_start(chars@) == trimmed_start(chars@.skip(start as int)),
        decreases chars.len() - start,
    {
        assert(chars@.skip(start as int).drop_first() =~= chars@.skip(start + 1));
        start = start + 1;
    }
    let ghost rest = chars@.skip(start as int);
    assert(trimmed_start(chars@) == rest);
    let mut end: usize = chars.len();
    while end > start && is_white_space(chars[end - 1])
        invariant
            start <= end <= chars.len(),
            rest == chars@.skip(start as int),
            trimmed_end(rest) == trimmed_end(chars@.subrange(start as int, end as int)),
        decreases end,
    {
        assert(chars@.subrange(start as int, end as int).drop_last() =~= chars@.subrange(
            start as int,
            end - 1,
        ));
        end = end - 1;
    }
    assert(chars@.subrange(start as int, chars@.len() as int) =~= rest);
    let ghost kept = chars@.subrange(start as int, end as int);
    assert(trimmed_end(rest) == kept);
    let mut out: Vec<char> = Vec::new();
    let mut i: usize = start;
    while i < end
        invariant
            start <= i <= end <= chars.len(),
            out@ == chars@.subrange(start as int, i as int),
        decreases end - i,
    {
        out.push(chars[i]);
        i = i + 1;
        assert(chars@.subrange(start as int, i as int) =~= chars@.subrange(
            start as int,
            i - 1,
        ).push(chars@[i - 1]));
    }
    out
}

/// Whether nothing but white space is in a text.
pub fn is_blank(text: &str) -> (blank: bool)
    ensures
        blank == (trimmed(text@).len() == 0),
{
    let chars = chars_of(text);
    let kept = trim_chars(&chars);
    kept.len() == 0
}

pub fn trim(text: &str) -> (trimmed_text: String)
    ensures
        trimmed_text@ == trimmed(text@),
{
    let chars = chars_of(text);
    let kept = trim_chars(&chars);
    text_of(&kept)
}

/// The pieces between the separators, empty pieces included.
pub open spec fn pieces<T>(items: Seq<T>, separator: T) -> Seq<Seq<T>>
    decreases items.len(),
{
    if items.len() == 0 {
        seq![Seq::empty()]
    } else {
        let before = pieces(items.drop_last(), separator);
        if items.last() == separator {
            before.push(Seq::empty())
        } else {
            before.drop_last().push(before.last().push(items.last()))
        }
    }
}

pub proof fn lemma_pieces_nonempty<T>(items: Seq<T>, separator: T)
    ensures
        pieces(items, separator).len() > 0,
    decreases items.len(),
{
    if items.len() > 0 {
        lemma_pieces_nonempty(items.drop_last(), separator);
    }
}

pub fn split_bytes(bytes: &[u8], separator: u8) -> (parts: Vec<Vec<u8>>)
    ensures
        parts.deep_view() == pieces(bytes@, separator),
{
    let mut parts: Vec<Vec<u8>> = Vec::new();
    let mut current: Vec<u8> = Vec::new();
    let mut i: usize = 0;
    assert(parts.deep_view().push(current@) =~= pieces(bytes@.take(0), separator));
    while i < bytes.len()
        invariant
            i <= bytes.len(),
            parts.deep_view().push(current@) == pieces(bytes@.take(i as int), separator),
        decreases bytes.len() - i,
    {
        let ghost before_parts = parts.deep_view();
        let ghost before_current = current@;
        let byte: u8 = bytes[i];
        i = i + 1;
        assert(bytes@.take(i as int).drop_last() =~= bytes@.take(i - 1));
        if byte == separator {
            let ghost piece = current.deep_view();
            assert(piece =~= before_current);
            parts.push(current);
            assert(parts.deep_view() =~= before_parts.push(piece));
            current = Vec::new();
        } else {
            current.push(byte);
            assert(before_parts.push(before_current).drop_last() =~= before_parts);
        }
        assert(parts.deep_view().push(current@) =~= pieces(bytes@.take(i as int), separator));
    }
    let ghost before_parts = parts.deep_view();
    let ghost piece = current.deep_view();
    assert(piece =~= current@);
    parts.push(current);
    assert(parts.deep_view() =~= before_parts.push(piece));
    assert(bytes@.take(bytes@.len() as int) =~= bytes@);
    parts
}

pub fn split_chars(chars: &[char], separator: char) -> (parts: Vec<Vec<char>>)
    ensures
        parts.deep_view() == pieces(chars@, separator),
{
    let mut parts: Vec<Vec<char>> = Vec::new();
    let mut current: Vec<char> = Vec::new();
    let mut i: usize = 0;
    assert(parts.deep_view().push(current@) =~= pieces(chars@.take(0), separator));
    while i < chars.len()
        invariant
            i <= chars.len(),
            parts.deep_view().push(current@) == pieces(chars@.take(i as int), separator),
        decreases chars.len() - i,
    {
        let ghost before_parts = parts.deep_view();
        let ghost before_current = current@;
        let character = chars[i];
        i = i + 1;
        assert(chars@.take(i as int).drop_last() =~= chars@.take(i - 1));
        if character == separator {
            let ghost piece = current.deep_view();
            assert(piece =~= before_current);
            parts.push(current);
            assert(parts.deep_view() =~= before_parts.push(piece));
            current = Vec::new();
        } else {
            current.push(character);
            assert(before_parts.push(before_current).drop_last() =~= before_parts);
        }
        assert(parts.deep_view().push(current@) =~= pieces(chars@.take(i as int), separator));
    }
    let ghost before_parts = parts.deep_view();
    let ghost piece = current.deep_view();
    assert(piece =~= current@);
    parts.push(current);
    assert(parts.deep_view() =~= before_parts.push(piece));
    assert(chars@.take(chars@.len() as int) =~= chars@);
    parts
}

/// The texts in a row, with the separator between any two of them.
pub open spec fn joined(texts: Seq<Seq<char>>, separator: Seq<char>) -> Seq<char>
    decreases texts.len(),
{
    if texts.len() == 0 {
        Seq::empty()
    } else if texts.len() == 1 {
        texts[0]
    } else {
        joined(texts.drop_last(), separator) + separator + texts.last()
    }
}

pub fn join(texts: &Vec<String>, separator: &str) -> (text: String)
    ensures
        text@ == joined(texts.deep_view(), separator@),
{
    let mut text = String::new();
    let mut i: usize = 0;
    let ghost all = texts.deep_view();
    while i < texts.len()
        invariant
            i <= texts.len(),
            all == texts.deep_view(),
            text@ == joined(all.take(i as int), separator@),
        decreases texts.len() - i,
    {
        if i > 0 {
            text.push_str(separator);
        }
        text.push_str(texts[i].as_str());
        i = i + 1;
        assert(all.take(i as int).drop_last() =~= all.take(i - 1));
        assert(all.take(i as int).last() == texts@[i - 1]@);
        assert(text@ =~= joined(all.take(i as int), separator@));
    }
    assert(all.take(all.len() as int) =~= all);
    text
}

/// Whether `needle` stands in `items` at `at`.
pub open spec fn occurs_at<T>(items: Seq<T>, needle: Seq<T>, at: int) -> bool {
    &&& 0 <= at
    &&& at + needle.len() <= items.len()
    &&& items.subrange(at, at + needle.len()) == needle
}

/// Whether `needle` stands anywhere in `items`.
pub open spec fn occurs<T>(items: Seq<T>, needle: Seq<T>) -> bool {
    exists|at: int| occurs_at(items, needle, at)
}

fn char_slices_match(chars: &[char], needle: &[char], at: usize) -> (answer: bool)
    requires
        at <= chars.len(),
    ensures
        answer == occurs_at(chars@, needle@, at as int),
{
    if needle.len() > chars.len() - at {
        return false;
    }
    let mut i: usize = 0;
    while i < needle.len()
        invariant
            at <= chars.len(),
            i <= needle.len(),
            needle.len() <= chars.len() - at,
            forall|k: int| 0 <= k < i ==> chars@[at + k] == needle@[k],
        decreases needle.len() - i,
    {
        if chars[at + i] != needle[i] {
            proof {
                assert(chars@.subrange(at as int, at + needle@.len())[i as int] != needle@[
                    i as int
                ]);
            }
            return false;
        }
        i = i + 1;
    }
    assert(chars@.subrange(at as int, at + needle@.len()) =~= needle@);
    true
}

/// Where `needle` first stands in `chars`, from position `from` on.
pub fn find_from(chars: &[char], needle: &[char], from: usize) -> (found: Option<usize>)
    requires
        from <= chars.len(),
    ensures
        match found {
            Some(at) => {
                &&& from <= at
                &&& occurs_at(chars@, needle@, at as int)
                &&& forall|i: int| from <= i < at ==> !occurs_at(chars@, needle@, i)
            },
            None => forall|i: int| from <= i ==> !occurs_at(chars@, needle@, i),
        },
{
    let mut at: usize = from;
    loop
        invariant
            from <= at <= chars.len(),
            forall|i: int| from <= i < at ==> !occurs_at(chars@, needle@, i),
        decreases chars.len() - at,
    {
        if char_slices_match(chars, needle, at) {
            return Some(at);
        }
        if at == chars.len() {
            return None;
        }
        at = at + 1;
    }
}

pub fn contains(text: &str, needle: &str) -> (answer: bool)
    ensures
        answer == occurs(text@, needle@),
{
    let chars = chars_of(text);
    let pattern = chars_of(needle);
    let found = find_from(&chars, &pattern, 0);
    match found {
        Some(at) => {
            assert(occurs_at(text@, needle@, at as int));
            true
        },
        None => false,
    }
}

/// Whether `prefix` begins `items`.
pub open spec fn begins_with<T>(items: Seq<T>, prefix: Seq<T>) -> bool {
    prefix.len() <= items.len() && items.take(prefix.len() as int) == prefix
}

pub fn strip_prefix(text: &str, prefix: &str) -> (rest: Option<String>)
    ensures
        match rest {
            Some(value) => begins_with(text@, prefix@) && value@ == text@.skip(
                prefix@.len() as int,
            ),
            None => !begins_with(text@, prefix@),
        },
{
    let chars = chars_of(text);
    let pattern = chars_of(prefix);
    if char_slices_match(&chars, &pattern, 0) {
        assert(text@.subrange(0, prefix@.len() as int) =~= text@.take(prefix@.len() as int));
        let total = text_of(slice_from(&chars, pattern.len()));
        Some(total)
    } else {
        assert(prefix@.len() <= text@.len() ==> text@.subrange(0, prefix@.len() as int)
            =~= text@.take(prefix@.len() as int));
        None
    }
}

/// The characters from position `from` on.
pub fn slice_from(chars: &Vec<char>, from: usize) -> (rest: &[char])
    requires
        from <= chars.len(),
    ensures
        rest@ == chars@.skip(from as int),
{
    vstd::slice::slice_subrange(chars.as_slice(), from, chars.len())
}

pub fn slice_of(chars: &Vec<char>, from: usize, to: usize) -> (part: &[char])
    requires
        from <= to <= chars.len(),
    ensures
        part@ == chars@.subrange(from as int, to as int),
{
    vstd::slice::slice_subrange(chars.as_slice(), from, to)
}

pub fn starts_with(text: &str, prefix: &str) -> (answer: bool)
    ensures
        answer == begins_with(text@, prefix@),
{
    let chars = chars_of(text);
    let pattern = chars_of(prefix);
    assert(prefix@.len() <= text@.len() ==> text@.subrange(0, prefix@.len() as int) =~= text@.take(
        prefix@.len() as int,
    ));
    char_slices_match(&chars, &pattern, 0)
}

/// Decimal digits of a number, without leading zeros.
pub open spec fn decimal(number: nat) -> Seq<char>
    decreases number,
{
    let digit = (('0' as u32) + (number % 10)) as char;
    if number < 10 {
        seq![digit]
    } else {
        decimal(number / 10).push(digit)
    }
}

pub fn decimal_text(number: u64) -> (text: String)
    ensures
        text@ == decimal(number as nat),
    decreases number,
{
    let digit: u8 = (number % 10) as u8;
    let character = (48 + digit) as char;
    let mut text = if number < 10 {
        String::new()
    } else {
        decimal_text(number / 10)
    };
    text.push(character);
    assert(text@ =~= decimal(number as nat));
    text
}

pub fn copy_texts(texts: &Vec<String>) -> (copy: Vec<String>)
    ensures
        copy.deep_view() == texts.deep_view(),
{
    let mut copy: Vec<String> = Vec::new();
    let mut i: usize = 0;
    while i < texts.len()
        invariant
            i <= texts.len(),
            copy@.len() == i,
            forall|k: int| 0 <= k < i ==> copy@[k]@ == texts@[k]@,
        decreases texts.len() - i,
    {
        copy.push(texts[i].clone());
        i = i + 1;
    }
    assert(copy.deep_view() =~= texts.deep_view());
    copy
}

} // verus!
