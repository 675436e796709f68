//! What the setup shows.

use crate::components::span::{append_line, blank_line, line_of, line_of_three, line_of_two, raw_span, toned_span, Span, SpanStyle, SpanV, Tone, Weight};
use crate::display::{sanitize, sanitized};
use crate::input::least;
use crate::keyboard::{KeyCode, KeyEvent};
use crate::setup::{SetupDirV, SetupState, SetupStep, SetupStepV, SetupV};
use crate::text::{byte_len, concat, concat3, decimal, decimal_text, length, owned};
use vstd::prelude::*;
use vstd::string::*;

verus! {

pub open spec fn heading(text: Seq<char>) -> Seq<SpanV> {
    seq![SpanV { text, style: SpanStyle { tone: Tone::Accent, weight: Weight::Bold } }]
}

/// Two keys and what they do.
pub open spec fn two_answers(
    first: Seq<char>,
    does_first: Seq<char>,
    second: Seq<char>,
    does_second: Seq<char>,
) -> Seq<SpanV> {
    seq![
        toned_span(first, Tone::Hint),
        raw_span(does_first),
        toned_span(second, Tone::Hint),
        raw_span(does_second),
    ]
}

fn answers(first: &str, does_first: &str, second: &str, does_second: &str) -> (line: Vec<Span>)
    ensures
        line.deep_view() == two_answers(first@, does_first@, second@, does_second@),
{
    let mut line: Vec<Span> = Vec::new();
    line.push(Span::toned(owned(first), Tone::Hint));
    line.push(Span::raw(owned(does_first)));
    line.push(Span::toned(owned(second), Tone::Hint));
    line.push(Span::raw(owned(does_second)));
    assert(line.deep_view() =~= two_answers(first@, does_first@, second@, does_second@));
    line
}

/// The first screen of the setup.
pub open spec fn welcome_screen(config_path: Seq<char>) -> Seq<Seq<SpanV>> {
    seq![
        Seq::empty(),
        heading("Welcome to herdr-kiosk"@),
        Seq::empty(),
        seq![raw_span("Pick repositories and branches without leaving herdr."@)],
        seq![
            raw_span("This setup will choose the directories to scan for git repositories."@),
        ],
        Seq::empty(),
        seq![toned_span("Config: "@, Tone::Muted), raw_span(sanitized(config_path))],
        Seq::empty(),
        two_answers("enter"@, " continue   "@, "esc"@, " quit"@),
    ]
}

/// The lines of the first screen of the setup.
pub fn welcome_lines(config_path: &str) -> (lines: Vec<Vec<Span>>)
    ensures
        lines.deep_view() == welcome_screen(config_path@),
{
    let mut lines: Vec<Vec<Span>> = Vec::new();
    assert(lines.deep_view() =~= Seq::empty());
    append_line(&mut lines, blank_line());
    append_line(
        &mut lines,
        line_of(Span::styled(owned("Welcome to herdr-kiosk"), Tone::Accent, Weight::Bold)),
    );
    append_line(&mut lines, blank_line());
    append_line(
        &mut lines,
        line_of(Span::raw(owned("Pick repositories and branches without leaving herdr."))),
    );
    append_line(
        &mut lines,
        line_of(
            Span::raw(
                owned("This setup will choose the directories to scan for git repositories."),
            ),
        ),
    );
    append_line(&mut lines, blank_line());
    append_line(
        &mut lines,
        line_of_two(
            Span::toned(owned("Config: "), Tone::Muted),
            Span::raw(sanitize(config_path)),
        ),
    );
    append_line(&mut lines, blank_line());
    append_line(&mut lines, answers("enter", " continue   ", "esc", " quit"));
    assert(lines.deep_view() =~= welcome_screen(config_path@));
    lines
}

/// What the screen that collects directories shows.
#[derive(Debug, PartialEq, Eq)]
pub struct DirectoryScreen {
    /// The path that is typed, or the one whose depth is asked for.
    pub path: String,
    pub path_cursor: usize,
    /// Whether the depth of the path is asked for.
    pub asks_depth: bool,
    /// How many rows the depth or the completions take.
    pub auxiliary_height: u16,
    pub completions: Vec<String>,
    pub added: Vec<Vec<Span>>,
    pub message: Span,
}

#[verifier::ext_equal]
pub struct DirectoryScreenV {
    pub path: Seq<char>,
    pub path_cursor: nat,
    pub asks_depth: bool,
    pub auxiliary_height: int,
    pub completions: Seq<Seq<char>>,
    pub added: Seq<Seq<SpanV>>,
    pub message: SpanV,
}

impl DeepView for DirectoryScreen {
    type V = DirectoryScreenV;

    open spec fn deep_view(&self) -> DirectoryScreenV {
        DirectoryScreenV {
            path: self.path@,
            path_cursor: self.path_cursor as nat,
            asks_depth: self.asks_depth,
            auxiliary_height: self.auxiliary_height as int,
            completions: self.completions.deep_view(),
            added: self.added.deep_view(),
            message: self.message.deep_view(),
        }
    }
}

/// The path that is settled and waits for its depth.
pub open spec fn pending_path(step: SetupStepV) -> Option<Seq<char>> {
    match step {
        SetupStepV::Depth { path } => Some(path),
        _ => None,
    }
}

/// The completions that fit: the first five, the selected one marked.
pub open spec fn completion_rows(completions: Seq<Seq<char>>, selected: Option<usize>) -> Seq<
    Seq<char>,
> {
    Seq::new(
        least(completions.len() as int, 5) as nat,
        |i: int|
            (if selected == Some(i as usize) {
                "▸ "@
            } else {
                "  "@
            }) + sanitized(completions[i]),
    )
}

/// The row of a directory that was added.
pub open spec fn added_row(dir: SetupDirV) -> Seq<SpanV> {
    seq![
        toned_span("✓ "@, Tone::Open),
        raw_span(sanitized(dir.path)),
        toned_span("  depth "@ + decimal(dir.depth as nat), Tone::Muted),
    ]
}

pub open spec fn added_rows(dirs: Seq<SetupDirV>) -> Seq<Seq<SpanV>> {
    if dirs.len() == 0 {
        seq![seq![toned_span("No directories added yet"@, Tone::Muted)]]
    } else {
        dirs.map_values(|dir: SetupDirV| added_row(dir))
    }
}

/// What went wrong, else which keys do something.
pub open spec fn setup_message(setup: SetupV) -> SpanV {
    match setup.message {
        Some(message) => toned_span(sanitized(message), Tone::Warning),
        None => toned_span(
            sanitized(
                if pending_path(setup.step) is Some {
                    "enter add directory   esc edit path"@
                } else {
                    "enter add/finish   tab complete   ctrl+x remove last   esc quit"@
                },
            ),
            Tone::Muted,
        ),
    }
}

/// What the screen that collects directories shows.
pub open spec fn directory_screen_of(setup: SetupV) -> DirectoryScreenV {
    let pending = pending_path(setup.step);
    DirectoryScreenV {
        path: match pending {
            Some(path) => path,
            None => setup.input.text,
        },
        path_cursor: match pending {
            Some(path) => byte_len(path),
            None => setup.input.cursor,
        },
        asks_depth: pending is Some,
        auxiliary_height: if pending is Some {
            3
        } else {
            least(setup.completions.len() as int, 5)
        },
        completions: if pending is Some {
            Seq::empty()
        } else {
            completion_rows(setup.completions, setup.selected_completion)
        },
        added: added_rows(setup.dirs),
        message: setup_message(setup),
    }
}

fn rows_of_completions(state: &SetupState) -> (rows: Vec<String>)
    ensures
        rows.deep_view() == completion_rows(
            state.deep_view().completions,
            state.selected_completion,
        ),
{
    let ghost all = state.deep_view().completions;
    let count: usize = if state.completions.len() < 5 {
        state.completions.len()
    } else {
        5
    };
    let mut rows: Vec<String> = Vec::new();
    let mut i: usize = 0;
    while i < count
        invariant
            i <= count <= state.completions@.len(),
            all == state.deep_view().completions,
            rows@.len() == i,
            forall|k: int|
                0 <= k < i ==> (#[trigger] rows@[k])@ == (if state.selected_completion == Some(
                    k as usize,
                ) {
                    "▸ "@
                } else {
                    "  "@
                }) + sanitized(all[k]),
        decreases count - i,
    {
        let text = sanitize(state.completions[i].as_str());
        assert(all[i as int] == state.completions@[i as int]@);
        let selected = match state.selected_completion {
            Some(index) => index == i,
            None => false,
        };
        let row = if selected {
            concat("▸ ", text.as_str())
        } else {
            concat("  ", text.as_str())
        };
        rows.push(row);
        i = i + 1;
    }
    assert(rows.deep_view() =~= completion_rows(all, state.selected_completion));
    rows
}

fn rows_of_added(state: &SetupState) -> (rows: Vec<Vec<Span>>)
    ensures
        rows.deep_view() == added_rows(state.deep_view().dirs),
{
    let ghost dirs = state.deep_view().dirs;
    let mut rows: Vec<Vec<Span>> = Vec::new();
    assert(rows.deep_view() =~= Seq::empty());
    assert(dirs.len() == state.dirs@.len());
    if state.dirs.len() == 0 {
        append_line(
            &mut rows,
            line_of(Span::toned(owned("No directories added yet"), Tone::Muted)),
        );
        assert(rows.deep_view() =~= added_rows(dirs));
        return rows;
    }
    let ghost wanted = added_rows(dirs);
    let mut i: usize = 0;
    assert(wanted.take(0) =~= Seq::empty());
    while i < state.dirs.len()
        invariant
            i <= state.dirs.len(),
            dirs == state.deep_view().dirs,
            dirs.len() == state.dirs@.len(),
            wanted == dirs.map_values(|dir: SetupDirV| added_row(dir)),
            rows.deep_view() == wanted.take(i as int),
        decreases state.dirs.len() - i,
    {
        let dir = &state.dirs[i];
        let depth = concat("  depth ", decimal_text(dir.depth as u64).as_str());
        append_line(
            &mut rows,
            line_of_three(
                Span::toned(owned("✓ "), Tone::Open),
                Span::raw(sanitize(dir.path.as_str())),
                Span::toned(depth, Tone::Muted),
            ),
        );
        i = i + 1;
        assert(wanted.take(i as int) =~= wanted.take(i - 1).push(wanted[i - 1]));
        assert(wanted[i - 1] == added_row(state.dirs@[i - 1].deep_view()));
    }
    assert(wanted.take(i as int) =~= wanted);
    rows
}

/// What the screen that collects directories shows.
pub fn directory_screen(state: &SetupState) -> (screen: DirectoryScreen)
    ensures
        screen.deep_view() == directory_screen_of(state.deep_view()),
{
    let added = rows_of_added(state);
    let message = match &state.message {
        Some(message) => Span::toned(sanitize(message.as_str()), Tone::Warning),
        None => if matches!(state.step, SetupStep::Depth { .. }) {
            Span::toned(sanitize("enter add directory   esc edit path"), Tone::Muted)
        } else {
            Span::toned(
                sanitize("enter add/finish   tab complete   ctrl+x remove last   esc quit"),
                Tone::Muted,
            )
        },
    };
    match &state.step {
        SetupStep::Depth { path } => {
            let completions: Vec<String> = Vec::new();
            assert(completions.deep_view() =~= Seq::empty());
            DirectoryScreen {
                path: path.clone(),
                path_cursor: length(path.as_str()),
                asks_depth: true,
                auxiliary_height: 3,
                completions,
                added,
                message,
            }
        },
        _ => {
            let completions = rows_of_completions(state);
            assert(state.deep_view().completions.len() == state.completions@.len());
            let auxiliary_height: u16 = if state.completions.len() < 5 {
                state.completions.len() as u16
            } else {
                5
            };
            DirectoryScreen {
                path: state.input.text.clone(),
                path_cursor: state.input.cursor,
                asks_depth: false,
                auxiliary_height,
                completions,
                added,
                message,
            }
        },
    }
}

/// The row of a directory on the last screen.
pub open spec fn confirmed_row(dir: SetupDirV) -> Seq<SpanV> {
    seq![
        toned_span("✓ "@, Tone::Open),
        raw_span(sanitized(dir.path) + "  (depth "@ + decimal(dir.depth as nat) + ")"@),
    ]
}

/// The last screen of the setup.
pub open spec fn confirm_screen(dirs: Seq<SetupDirV>, config_path: Seq<char>) -> Seq<Seq<SpanV>> {
    seq![Seq::empty(), heading("Ready to start"@), Seq::empty()] + dirs.map_values(
        |dir: SetupDirV| confirmed_row(dir),
    ) + seq![
        Seq::empty(),
        seq![toned_span("Write to: "@, Tone::Muted), raw_span(sanitized(config_path))],
        Seq::empty(),
        two_answers("enter"@, " write config and open picker   "@, "esc"@, " back"@),
    ]
}

/// The lines of the last screen of the setup.
pub fn confirm_lines(state: &SetupState, config_path: &str) -> (lines: Vec<Vec<Span>>)
    ensures
        lines.deep_view() == confirm_screen(state.deep_view().dirs, config_path@),
{
    let ghost dirs = state.deep_view().dirs;
    let ghost rows = dirs.map_values(|dir: SetupDirV| confirmed_row(dir));
    let mut lines: Vec<Vec<Span>> = Vec::new();
    assert(lines.deep_view() =~= Seq::empty());
    append_line(&mut lines, blank_line());
    append_line(
        &mut lines,
        line_of(Span::styled(owned("Ready to start"), Tone::Accent, Weight::Bold)),
    );
    append_line(&mut lines, blank_line());
    let ghost head = lines.deep_view();
    assert(head =~= seq![Seq::empty(), heading("Ready to start"@), Seq::empty()]);
    let mut i: usize = 0;
    assert(head + rows.take(0) =~= head);
    while i < state.dirs.len()
        invariant
            i <= state.dirs.len(),
            dirs == state.deep_view().dirs,
            rows == dirs.map_values(|dir: SetupDirV| confirmed_row(dir)),
            lines.deep_view() == head + rows.take(i as int),
        decreases state.dirs.len() - i,
    {
        let dir = &state.dirs[i];
        let path = sanitize(dir.path.as_str());
        let depth = decimal_text(dir.depth as u64);
        let head_text = concat3(path.as_str(), "  (depth ", depth.as_str());
        let text = concat(head_text.as_str(), ")");
        append_line(
            &mut lines,
            line_of_two(Span::toned(owned("✓ "), Tone::Open), Span::raw(text)),
        );
        i = i + 1;
        assert(rows[i - 1] == confirmed_row(state.dirs@[i - 1].deep_view()));
        assert(rows.take(i as int) =~= rows.take(i - 1).push(rows[i - 1]));
        assert(lines.deep_view() =~= head + rows.take(i as int));
    }
    assert(rows.take(i as int) =~= rows);
    append_line(&mut lines, blank_line());
    append_line(
        &mut lines,
        line_of_two(
            Span::toned(owned("Write to: "), Tone::Muted),
            Span::raw(sanitize(config_path)),
        ),
    );
    append_line(&mut lines, blank_line());
    append_line(&mut lines, answers("enter", " write config and open picker   ", "esc", " back"));
    assert(lines.deep_view() =~= confirm_screen(dirs, config_path@));
    lines
}

/// Whether a key leaves the screen that says that nothing is configured.
pub fn leaves_notice(key: KeyEvent) -> (answer: bool)
    ensures
        answer == (key.code == KeyCode::Esc || key.code == KeyCode::Char('q') || (key.code
            == KeyCode::Char('c') && key.modifiers.control)),
{
    match key.code {
        KeyCode::Esc => true,
        KeyCode::Char('q') => true,
        KeyCode::Char('c') => key.modifiers.control,
        _ => false,
    }
}

} // verus!
