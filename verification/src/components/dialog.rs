//! Dialogs and full-screen notices.

use crate::app::loading_hint;
use crate::components::hints::dialog_hints;
use crate::components::list_view::{spinner, spinner_picture};
use crate::components::span::{append, append_line, blank_line, line_of, raw_span, toned_span, Span, SpanStyle, SpanV, Tone, Weight};
use crate::config::keys::{chord_display, first_in_sections, BindingMode, Command, KeysConfig, KeysConfigV};
use crate::display::{sanitize, sanitized};
use crate::path::{display, shown_path, PathBuf, PathRules};
use crate::screens::delete::{DeleteFlowState, DeleteFlowV};
use crate::text::{concat, concat3, owned};
use vstd::prelude::*;
use vstd::string::*;

verus! {

/// How a dialog can be answered.
pub open spec fn answer_spans(keys: KeysConfigV) -> Seq<SpanV> {
    let modal = keys.help(BindingMode::Modal);
    let confirm = match first_in_sections(modal, Command::Open) {
        Some(chord) => seq![toned_span(chord_display(chord), Tone::Hint), raw_span(" confirm"@)],
        None => Seq::empty(),
    };
    match first_in_sections(modal, Command::Back) {
        Some(chord) => {
            let lead = if confirm.len() > 0 {
                confirm.push(raw_span(" / "@))
            } else {
                confirm
            };
            lead.push(toned_span(chord_display(chord), Tone::Hint)).push(raw_span(" cancel"@))
        },
        None => confirm,
    }
}

fn answer_line(keys: &KeysConfig) -> (line: Vec<Span>)
    ensures
        line.deep_view() == answer_spans(keys.deep_view()),
{
    let (confirm, cancel) = dialog_hints(keys);
    let mut line: Vec<Span> = Vec::new();
    assert(line.deep_view() =~= Seq::empty());
    let confirms = confirm.is_some();
    if let Some(confirm) = confirm {
        append(&mut line, Span::toned(confirm, Tone::Hint));
        append(&mut line, Span::raw(owned(" confirm")));
    }
    if let Some(cancel) = cancel {
        if confirms {
            append(&mut line, Span::raw(owned(" / ")));
        }
        append(&mut line, Span::toned(cancel, Tone::Hint));
        append(&mut line, Span::raw(owned(" cancel")));
    }
    assert(line.deep_view() =~= answer_spans(keys.deep_view()));
    line
}

/// What the dialog asks: whether a checkout shall go, by force where it has changes.
pub open spec fn delete_question(flow: DeleteFlowV, rules: PathRules) -> Seq<Seq<SpanV>> {
    let path = sanitized(shown_path(flow.target.worktree_path, rules));
    let asked = if flow.target.force {
        seq![
            seq![
                SpanV {
                    text: "This checkout has uncommitted changes."@,
                    style: SpanStyle { tone: Tone::Warning, weight: Weight::Bold },
                },
            ],
            seq![raw_span("Force-remove "@ + path + "?"@)],
        ]
    } else {
        seq![seq![raw_span("Remove checkout "@ + path + "?"@)]]
    };
    let closing = if flow.target.open_workspace_id is Some {
        asked.push(seq![raw_span("Its herdr workspace will also be closed."@)])
    } else {
        asked
    };
    closing.push(Seq::empty())
}

/// The dialog: the question, then how it can be answered or that the answer is being followed.
pub open spec fn delete_dialog(
    flow: DeleteFlowV,
    keys: KeysConfigV,
    millis: nat,
    rules: PathRules,
) -> Seq<Seq<SpanV>> {
    let question = delete_question(flow, rules);
    if flow.target.in_progress {
        question.push(
            seq![
                toned_span(
                    seq![spinner_picture(millis)] + " Removing checkout…"@,
                    Tone::Secondary,
                ),
            ],
        )
    } else if answer_spans(keys).len() > 0 {
        question.push(answer_spans(keys))
    } else {
        question
    }
}

/// A turning wheel in front of a text.
pub fn busy_text(label: &str, millis: u64) -> (text: String)
    ensures
        text@ == seq![spinner_picture(millis as nat)] + label@,
{
    let mut text = String::new();
    text.push(spinner(millis));
    text.push_str(label);
    assert(text@ =~= seq![spinner_picture(millis as nat)] + label@);
    text
}

/// The lines of the dialog that asks whether a checkout shall go.
pub fn delete_lines(
    flow: &DeleteFlowState,
    keys: &KeysConfig,
    millis: u64,
    rules: PathRules,
) -> (lines: Vec<Vec<Span>>)
    ensures
        lines.deep_view() == delete_dialog(
            flow.deep_view(),
            keys.deep_view(),
            millis as nat,
            rules,
        ),
{
    let path = sanitize(display(&flow.target.worktree_path, rules).as_str());
    let mut lines: Vec<Vec<Span>> = Vec::new();
    assert(lines.deep_view() =~= Seq::empty());
    if flow.target.force {
        let warning = Span::styled(
            owned("This checkout has uncommitted changes."),
            Tone::Warning,
            Weight::Bold,
        );
        append_line(&mut lines, line_of(warning));
        append_line(&mut lines, line_of(Span::raw(concat3("Force-remove ", path.as_str(), "?"))));
    } else {
        append_line(
            &mut lines,
            line_of(Span::raw(concat3("Remove checkout ", path.as_str(), "?"))),
        );
    }
    if flow.target.open_workspace_id.is_some() {
        append_line(
            &mut lines,
            line_of(Span::raw(owned("Its herdr workspace will also be closed."))),
        );
    }
    append_line(&mut lines, blank_line());
    assert(lines.deep_view() =~= delete_question(flow.deep_view(), rules));
    if flow.target.in_progress {
        append_line(
            &mut lines,
            line_of(Span::toned(busy_text(" Removing checkout…", millis), Tone::Secondary)),
        );
    } else {
        let answers = answer_line(keys);
        assert(answers.deep_view().len() == answers@.len());
        if answers.len() > 0 {
            append_line(&mut lines, answers);
        }
    }
    lines
}

/// What is shown while something is opened.
pub open spec fn loading_screen(message: Seq<char>, keys: KeysConfigV, millis: nat) -> Seq<
    Seq<SpanV>,
> {
    let busy = seq![
        SpanV {
            text: seq![spinner_picture(millis)] + (" "@ + sanitized(message)),
            style: SpanStyle { tone: Tone::Accent, weight: Weight::Bold },
        },
    ];
    match first_in_sections(keys.help(BindingMode::Modal), Command::Quit) {
        Some(chord) => seq![
            busy,
            seq![
                toned_span(
                    chord_display(chord) + " to close (operation continues)"@,
                    Tone::Muted,
                ),
            ],
        ],
        None => seq![busy],
    }
}

/// The lines that are shown while something is opened.
pub fn loading_lines(message: &str, keys: &KeysConfig, millis: u64) -> (lines: Vec<Vec<Span>>)
    ensures
        lines.deep_view() == loading_screen(message@, keys.deep_view(), millis as nat),
{
    let label = concat(" ", sanitize(message).as_str());
    let mut lines: Vec<Vec<Span>> = Vec::new();
    assert(lines.deep_view() =~= Seq::empty());
    append_line(
        &mut lines,
        line_of(Span::styled(busy_text(label.as_str(), millis), Tone::Accent, Weight::Bold)),
    );
    if let Some(hint) = loading_hint(keys) {
        append_line(&mut lines, line_of(Span::toned(hint, Tone::Muted)));
    }
    assert(lines.deep_view() =~= loading_screen(message@, keys.deep_view(), millis as nat));
    lines
}

/// Where the configuration is, for those who have none.
pub fn config_location(path: Option<&PathBuf>, rules: PathRules) -> (text: String)
    ensures
        text@ == match path {
            Some(path) => "Config path: "@ + sanitized(shown_path(path@, rules)),
            None => "No trusted config path could be resolved."@,
        },
{
    match path {
        Some(path) => concat("Config path: ", sanitize(display(path, rules).as_str()).as_str()),
        None => owned("No trusted config path could be resolved."),
    }
}

/// What is shown where there is nothing to search.
pub fn no_search_dirs_lines(location: &str) -> (lines: Vec<Vec<Span>>)
    ensures
        lines.deep_view() == seq![
            seq![
                SpanV {
                    text: "No search directories configured"@,
                    style: SpanStyle { tone: Tone::Plain, weight: Weight::Bold },
                },
            ],
            Seq::empty(),
            seq![raw_span(location@)],
            Seq::empty(),
            seq![raw_span("q / esc / ctrl+c to quit"@)],
        ],
{
    let mut lines: Vec<Vec<Span>> = Vec::new();
    assert(lines.deep_view() =~= Seq::empty());
    let heading = Span::styled(
        owned("No search directories configured"),
        Tone::Plain,
        Weight::Bold,
    );
    append_line(&mut lines, line_of(heading));
    append_line(&mut lines, blank_line());
    append_line(&mut lines, line_of(Span::raw(owned(location))));
    append_line(&mut lines, blank_line());
    append_line(&mut lines, line_of(Span::raw(owned("q / esc / ctrl+c to quit"))));
    lines
}

} // verus!
