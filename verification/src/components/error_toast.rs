//! The notice that lies over a screen.

use crate::components::hints::dismiss_hint;
use crate::components::span::{append_line, blank_line, line_of_two, raw_span, toned_span, Span, SpanV, Tone};
use crate::config::keys::{chord_display, first_dismiss, KeysConfig, KeysConfigV};
use crate::display::{sanitize, sanitized};
use crate::text::{concat, decimal, decimal_text, owned};
use crate::toasts::{Toast, ToastKind, ToastV};
use vstd::prelude::*;
use vstd::string::*;

verus! {

/// Which of the waiting notices is shown: the first of so many.
pub fn queue_counter(length: usize) -> (counter: Option<String>)
    ensures
        match counter {
            Some(text) => length > 1 && text@ == "1/"@ + decimal(length as nat),
            None => length <= 1,
        },
{
    if length > 1 {
        Some(concat("1/", decimal_text(length as u64).as_str()))
    } else {
        None
    }
}

/// The lines of the notice: its text with the counter, and how to dismiss it.
pub open spec fn toast_body(toast: ToastV, waiting: nat, keys: KeysConfigV) -> Seq<Seq<SpanV>> {
    let counter = if waiting > 1 {
        "  "@ + ("1/"@ + decimal(waiting))
    } else {
        Seq::empty()
    };
    let first = seq![raw_span(sanitized(toast.message)), toned_span(counter, Tone::Muted)];
    match first_dismiss(keys.general) {
        Some(chord) => seq![
            first,
            Seq::empty(),
            seq![toned_span(chord_display(chord), Tone::Hint), raw_span(" dismiss"@)],
        ],
        None => seq![first],
    }
}

/// The lines of the notice.
pub fn toast_lines(toast: &Toast, waiting: usize, keys: &KeysConfig) -> (lines: Vec<Vec<Span>>)
    ensures
        lines.deep_view() == toast_body(toast.deep_view(), waiting as nat, keys.deep_view()),
{
    let counter = match queue_counter(waiting) {
        Some(text) => concat("  ", text.as_str()),
        None => String::new(),
    };
    assert(waiting <= 1 ==> counter@ =~= Seq::empty());
    let mut lines: Vec<Vec<Span>> = Vec::new();
    assert(lines.deep_view() =~= Seq::empty());
    append_line(
        &mut lines,
        line_of_two(
            Span::raw(sanitize(toast.message.as_str())),
            Span::toned(counter, Tone::Muted),
        ),
    );
    if let Some(hint) = dismiss_hint(keys) {
        append_line(&mut lines, blank_line());
        append_line(
            &mut lines,
            line_of_two(Span::toned(hint, Tone::Hint), Span::raw(owned(" dismiss"))),
        );
    }
    assert(lines.deep_view() =~= toast_body(toast.deep_view(), waiting as nat, keys.deep_view()));
    lines
}

/// What the box of a notice is called, and its colour.
pub fn toast_label(kind: ToastKind) -> (label: (&'static str, Tone))
    ensures
        label.0@ == (if kind == ToastKind::Warning {
            "Warning"@
        } else {
            "Error"@
        }),
        label.1 == (if kind == ToastKind::Warning {
            Tone::Warning
        } else {
            Tone::Error
        }),
{
    match kind {
        ToastKind::Warning => ("Warning", Tone::Warning),
        ToastKind::Error => ("Error", Tone::Error),
    }
}

} // verus!
