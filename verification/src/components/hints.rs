//! Hints on the keys that do something on a screen.

use crate::components::span::{append, line_of, raw_span, toned_span, Span, SpanV, Tone};
use crate::config::keys::{chord_display, first_dismiss, first_in_sections, BindingMode, Command, KeysConfig, KeysConfigV};
use crate::display::{sanitize, sanitized};
use crate::screens::workspace::WorkspacePickerState;
use crate::state::{Mode, ModeV};
use crate::text::{concat, owned};
use vstd::prelude::*;
use vstd::string::*;

verus! {

/// A command and what its hint says.
#[derive(Debug, Clone, Copy, PartialEq, Eq)]
pub struct Hint {
    pub command: Command,
    pub label: &'static str,
}

#[verifier::ext_equal]
pub struct HintV {
    pub command: Command,
    pub label: Seq<char>,
}

impl DeepView for Hint {
    type V = HintV;

    open spec fn deep_view(&self) -> HintV {
        HintV { command: self.command, label: self.label@ }
    }
}

/// The hints on those commands that have a key, with two blanks between any two of them.
pub open spec fn hint_spans(keys: KeysConfigV, mode: BindingMode, hints: Seq<HintV>) -> Seq<SpanV>
    decreases hints.len(),
{
    if hints.len() == 0 {
        Seq::empty()
    } else {
        let before = hint_spans(keys, mode, hints.drop_last());
        match first_in_sections(keys.help(mode), hints.last().command) {
            Some(chord) => {
                let lead = if before.len() > 0 {
                    before.push(raw_span("  "@))
                } else {
                    before
                };
                lead.push(toned_span(chord_display(chord), Tone::Hint)).push(
                    raw_span(" "@ + hints.last().label),
                )
            },
            None => before,
        }
    }
}

/// The hints on those commands that have a key.
pub fn key_hints(keys: &KeysConfig, mode: BindingMode, hints: &Vec<Hint>) -> (spans: Vec<Span>)
    ensures
        spans.deep_view() == hint_spans(keys.deep_view(), mode, hints.deep_view()),
{
    let ghost all = hints.deep_view();
    let mut spans: Vec<Span> = Vec::new();
    let mut i: usize = 0;
    assert(spans.deep_view() =~= hint_spans(keys.deep_view(), mode, all.take(0)));
    while i < hints.len()
        invariant
            i <= hints.len(),
            all == hints.deep_view(),
            spans.deep_view() == hint_spans(keys.deep_view(), mode, all.take(i as int)),
        decreases hints.len() - i,
    {
        let hint = hints[i];
        assert(all.take(i + 1).drop_last() =~= all.take(i as int));
        assert(all.take(i + 1).last() == hint.deep_view());
        assert(spans.deep_view().len() == spans@.len());
        if let Some(chord) = keys.first_key(mode, hint.command) {
            if spans.len() > 0 {
                append(&mut spans, Span::raw(owned("  ")));
            }
            append(&mut spans, Span::toned(chord.to_text(), Tone::Hint));
            append(&mut spans, Span::raw(concat(" ", hint.label)));
        }
        i = i + 1;
    }
    assert(all.take(all.len() as int) =~= all);
    spans
}

/// What the footer of a screen hints at.
pub open spec fn footer_hints(binding_mode: BindingMode, mode: ModeV) -> Seq<HintV> {
    let quit = HintV { command: Command::Quit, label: "quit"@ };
    if mode is ValidatingNewBranch || mode is Loading {
        seq![quit]
    } else {
        let moving = if binding_mode != BindingMode::Modal {
            seq![HintV { command: Command::MoveUp, label: "move"@ }]
        } else {
            Seq::empty()
        };
        let opening = seq![
            HintV {
                command: Command::Open,
                label: if mode is SelectBaseBranch || mode is ConfirmWorktreeDelete {
                    "confirm"@
                } else {
                    "open"@
                },
            },
        ];
        let own = match mode {
            ModeV::RepoSelect => seq![
                HintV { command: Command::BranchesView, label: "branches"@ },
            ],
            ModeV::BranchSelect(_) => seq![
                HintV { command: Command::NewBranch, label: "new"@ },
                HintV { command: Command::Delete, label: "delete"@ },
            ],
            _ => Seq::empty(),
        };
        let leaving = if mode is RepoSelect {
            seq![HintV { command: Command::Clear, label: "clear/quit"@ }]
        } else {
            seq![HintV { command: Command::Back, label: "back"@ }]
        };
        moving + opening + own + leaving + seq![
            HintV { command: Command::Help, label: "help"@ },
            quit,
        ]
    }
}

fn add_hint(hints: &mut Vec<Hint>, command: Command, label: &'static str)
    ensures
        final(hints).deep_view() == old(hints).deep_view().push(HintV { command, label: label@ }),
{
    let ghost before = hints.deep_view();
    hints.push(Hint { command, label });
    assert(hints.deep_view() =~= before.push(HintV { command, label: label@ }));
}

/// The commands that the footer of a screen hints at, in order.
pub fn footer_commands(binding_mode: BindingMode, mode: &Mode) -> (hints: Vec<Hint>)
    ensures
        hints.deep_view() == footer_hints(binding_mode, mode.deep_view()),
{
    let mut hints: Vec<Hint> = Vec::new();
    assert(hints.deep_view() =~= Seq::empty());
    if matches!(mode, Mode::ValidatingNewBranch { .. } | Mode::Loading { .. }) {
        add_hint(&mut hints, Command::Quit, "quit");
        assert(hints.deep_view() =~= footer_hints(binding_mode, mode.deep_view()));
        return hints;
    }
    if binding_mode != BindingMode::Modal {
        add_hint(&mut hints, Command::MoveUp, "move");
    }
    let confirms = matches!(mode, Mode::SelectBaseBranch { .. } | Mode::ConfirmWorktreeDelete(_));
    if confirms {
        add_hint(&mut hints, Command::Open, "confirm");
    } else {
        add_hint(&mut hints, Command::Open, "open");
    }
    if matches!(mode, Mode::RepoSelect) {
        add_hint(&mut hints, Command::BranchesView, "branches");
    }
    if matches!(mode, Mode::BranchSelect(_)) {
        add_hint(&mut hints, Command::NewBranch, "new");
        add_hint(&mut hints, Command::Delete, "delete");
    }
    if confirms || matches!(mode, Mode::BranchSelect(_)) {
        add_hint(&mut hints, Command::Back, "back");
    } else {
        add_hint(&mut hints, Command::Clear, "clear/quit");
    }
    add_hint(&mut hints, Command::Help, "help");
    add_hint(&mut hints, Command::Quit, "quit");
    assert(hints.deep_view() =~= footer_hints(binding_mode, mode.deep_view()));
    hints
}

/// The footer of a screen.
pub fn footer_spans(keys: &KeysConfig, binding_mode: BindingMode, mode: &Mode) -> (spans: Vec<Span>)
    ensures
        spans.deep_view() == hint_spans(
            keys.deep_view(),
            binding_mode,
            footer_hints(binding_mode, mode.deep_view()),
        ),
{
    let hints = footer_commands(binding_mode, mode);
    key_hints(keys, binding_mode, &hints)
}

/// What the footer of the workspace picker hints at.
pub open spec fn picker_hints() -> Seq<HintV> {
    seq![
        HintV { command: Command::MoveUp, label: "move"@ },
        HintV { command: Command::Open, label: "switch"@ },
        HintV { command: Command::Clear, label: "clear/quit"@ },
        HintV { command: Command::Quit, label: "quit"@ },
    ]
}

/// The footer of the workspace picker: what went wrong last, else the hints.
pub fn picker_footer_spans(state: &WorkspacePickerState, keys: &KeysConfig) -> (spans: Vec<Span>)
    ensures
        spans.deep_view() == match state.error {
            Some(error) => seq![toned_span(sanitized(error@), Tone::Error)],
            None => hint_spans(keys.deep_view(), BindingMode::Repo, picker_hints()),
        },
{
    if let Some(error) = &state.error {
        return line_of(Span::toned(sanitize(error.as_str()), Tone::Error));
    }
    let mut hints: Vec<Hint> = Vec::new();
    assert(hints.deep_view() =~= Seq::empty());
    add_hint(&mut hints, Command::MoveUp, "move");
    add_hint(&mut hints, Command::Open, "switch");
    add_hint(&mut hints, Command::Clear, "clear/quit");
    add_hint(&mut hints, Command::Quit, "quit");
    assert(hints.deep_view() =~= picker_hints());
    key_hints(keys, BindingMode::Repo, &hints)
}

/// The keys that answer a dialog: to confirm, and to cancel.
pub fn dialog_hints(keys: &KeysConfig) -> (hints: (Option<String>, Option<String>))
    ensures
        ({
            let modal = keys.deep_view().help(BindingMode::Modal);
            &&& match first_in_sections(modal, Command::Open) {
                Some(chord) => hints.0 is Some && hints.0->0@ == chord_display(chord),
                None => hints.0 is None,
            }
            &&& match first_in_sections(modal, Command::Back) {
                Some(chord) => hints.1 is Some && hints.1->0@ == chord_display(chord),
                None => hints.1 is None,
            }
        }),
{
    let confirm = match keys.first_key(BindingMode::Modal, Command::Open) {
        Some(chord) => Some(chord.to_text()),
        None => None,
    };
    let cancel = match keys.first_key(BindingMode::Modal, Command::Back) {
        Some(chord) => Some(chord.to_text()),
        None => None,
    };
    (confirm, cancel)
}

/// The key that dismisses a notice.
pub fn dismiss_hint(keys: &KeysConfig) -> (hint: Option<String>)
    ensures
        match first_dismiss(keys.deep_view().general) {
            Some(chord) => hint is Some && hint->0@ == chord_display(chord),
            None => hint is None,
        },
{
    match keys.dismiss_toast_key() {
        Some(chord) => Some(chord.to_text()),
        None => None,
    }
}

} // verus!
