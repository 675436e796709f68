//! The list of workspaces.

use crate::components::list_view::{find_selected, list_title, scroll_list, selected_place, spinner, spinner_picture, title_of, viewport, ListView, ListViewV, RowParts, RowPartsV};
use crate::components::span::{append, append_line, line_of, raw_span, toned_span, Span, SpanStyle, SpanV, Tone, Weight};
use crate::config::keys::{chord_display, first_in_sections, BindingMode, Command, KeysConfig, KeysConfigV};
use crate::display::{sanitize, sanitized};
use crate::input::SearchableListV;
use crate::screens::workspace::{WorkspaceEntry, WorkspaceEntryV, WorkspacePickerState, WorkspacePickerV};
use crate::text::{concat, owned, same_text};
use vstd::prelude::*;
use vstd::string::*;

verus! {

/// What the agent of a workspace does; nothing where that is not known.
pub open spec fn badge_of(status: Option<Seq<char>>) -> Option<SpanV> {
    match status {
        None => None,
        Some(status) => if status == "unknown"@ {
            None
        } else {
            let tone = if status == "working"@ {
                Tone::Accent
            } else if status == "idle"@ {
                Tone::Open
            } else {
                Tone::Muted
            };
            Some(toned_span("● "@ + sanitized(status), tone))
        },
    }
}

/// The badge that tells what the agent of a workspace does.
pub fn agent_badge(entry: &WorkspaceEntry) -> (badge: Option<Span>)
    ensures
        badge.deep_view() == badge_of(entry.deep_view().agent_status),
{
    match &entry.agent_status {
        None => None,
        Some(status) => {
            let working = same_text(status.as_str(), "working");
            let idle = same_text(status.as_str(), "idle");
            if same_text(status.as_str(), "unknown") {
                return None;
            }
            let tone = if working {
                Tone::Accent
            } else if idle {
                Tone::Open
            } else {
                Tone::Muted
            };
            let text = concat("● ", sanitize(status.as_str()).as_str());
            Some(Span::toned(text, tone))
        },
    }
}

/// The row of a workspace: its name, its branch and whether it is the current one.
pub open spec fn workspace_parts(entry: WorkspaceEntryV) -> RowPartsV {
    let name = seq![raw_span(sanitized(entry.name))];
    let branch = match entry.branch {
        Some(branch) => name.push(toned_span("  "@ + sanitized(branch), Tone::Tertiary)),
        None => name,
    };
    RowPartsV {
        left: if entry.is_current {
            branch.push(toned_span("  current"@, Tone::Muted))
        } else {
            branch
        },
        suffix: match badge_of(entry.agent_status) {
            Some(badge) => seq![badge],
            None => Seq::empty(),
        },
    }
}

/// The row of a workspace.
pub fn entry_spans(entry: &WorkspaceEntry) -> (row: RowParts)
    ensures
        row.deep_view() == workspace_parts(entry.deep_view()),
{
    let mut left = line_of(Span::raw(sanitize(entry.name.as_str())));
    if let Some(branch) = &entry.branch {
        let text = concat("  ", sanitize(branch.as_str()).as_str());
        append(&mut left, Span::toned(text, Tone::Tertiary));
    }
    if entry.is_current {
        append(&mut left, Span::toned(owned("  current"), Tone::Muted));
    }
    let suffix = match agent_badge(entry) {
        Some(badge) => line_of(badge),
        None => Vec::new(),
    };
    let row = RowParts { left, suffix };
    assert(row.deep_view() =~= workspace_parts(entry.deep_view()));
    row
}

/// The rows of the visible positions that have an entry.
pub open spec fn workspace_rows(visible: Seq<(usize, usize)>, entries: Seq<WorkspaceEntryV>) -> Seq<
    RowPartsV,
>
    decreases visible.len(),
{
    if visible.len() == 0 {
        Seq::empty()
    } else {
        let before = workspace_rows(visible.drop_last(), entries);
        let index = visible.last().1;
        if index < entries.len() {
            before.push(workspace_parts(entries[index as int]))
        } else {
            before
        }
    }
}

fn rows_of(visible: &Vec<(usize, usize)>, entries: &Vec<WorkspaceEntry>) -> (rows: Vec<RowParts>)
    ensures
        rows.deep_view() == workspace_rows(visible@, entries.deep_view()),
{
    let ghost all = entries.deep_view();
    let mut rows: Vec<RowParts> = Vec::new();
    let mut i: usize = 0;
    assert(rows.deep_view() =~= workspace_rows(visible@.take(0), all));
    while i < visible.len()
        invariant
            i <= visible.len(),
            all == entries.deep_view(),
            rows.deep_view() == workspace_rows(visible@.take(i as int), all),
        decreases visible.len() - i,
    {
        assert(visible@.take(i + 1).drop_last() =~= visible@.take(i as int));
        let index: usize = visible[i].1;
        if index < entries.len() {
            let ghost before = rows.deep_view();
            let row = entry_spans(&entries[index]);
            let ghost added = row.deep_view();
            rows.push(row);
            assert(rows.deep_view() =~= before.push(added));
        }
        i = i + 1;
    }
    assert(visible@.take(i as int) =~= visible@);
    rows
}

/// The list of workspaces, once it is scrolled.
pub open spec fn workspace_list(picker: WorkspacePickerV, rows: int) -> ListViewV {
    ListViewV {
        rows: workspace_rows(picker.list.visible(rows), picker.entries),
        notice: None,
        selected: selected_place(picker.list, rows),
        title: list_title(
            picker.list.filtered.len(),
            picker.entries.len(),
            "workspaces"@,
            Seq::empty(),
        ),
    }
}

/// Lays the list of workspaces out at some height.
pub fn lay_out(state: &mut WorkspacePickerState, list_height: u16) -> (view: ListView)
    ensures
        final(state).deep_view() == (WorkspacePickerV {
            list: SearchableListV {
                scroll_offset: old(state).deep_view().list.scrolled(
                    viewport(list_height as int),
                ) as usize,
                ..old(state).deep_view().list
            },
            ..old(state).deep_view()
        }),
        view.deep_view() == workspace_list(
            final(state).deep_view(),
            viewport(list_height as int),
        ),
{
    let rows = scroll_list(&mut state.list, list_height);
    let visible = state.list.visible_items(rows);
    let selected = find_selected(&visible, state.list.selected);
    let shown = rows_of(&visible, &state.entries);
    let none = String::new();
    assert(none@ =~= Seq::empty());
    let title = title_of(
        state.list.filtered.len(),
        state.entries.len(),
        "workspaces",
        none.as_str(),
    );
    ListView { rows: shown, notice: None, selected, title }
}

/// What is shown while the workspaces are loaded.
pub open spec fn picker_loading(keys: KeysConfigV, millis: nat) -> Seq<Seq<SpanV>> {
    let busy = seq![
        SpanV {
            text: seq![spinner_picture(millis)] + " Loading workspaces…"@,
            style: SpanStyle { tone: Tone::Accent, weight: Weight::Bold },
        },
    ];
    match first_in_sections(keys.help(BindingMode::Repo), Command::Quit) {
        Some(chord) => seq![
            busy,
            seq![toned_span(chord_display(chord) + " to close"@, Tone::Muted)],
        ],
        None => seq![busy],
    }
}

/// The lines that are shown while the workspaces are loaded.
pub fn loading_lines(keys: &KeysConfig, millis: u64) -> (lines: Vec<Vec<Span>>)
    ensures
        lines.deep_view() == picker_loading(keys.deep_view(), millis as nat),
{
    let mut text = String::new();
    text.push(spinner(millis));
    text.push_str(" Loading workspaces…");
    assert(text@ =~= seq![spinner_picture(millis as nat)] + " Loading workspaces…"@);
    let mut lines: Vec<Vec<Span>> = Vec::new();
    assert(lines.deep_view() =~= Seq::empty());
    append_line(&mut lines, line_of(Span::styled(text, Tone::Accent, Weight::Bold)));
    if let Some(chord) = keys.first_key(BindingMode::Repo, Command::Quit) {
        let hint = concat(chord.to_text().as_str(), " to close");
        append_line(&mut lines, line_of(Span::toned(hint, Tone::Muted)));
    }
    assert(lines.deep_view() =~= picker_loading(keys.deep_view(), millis as nat));
    lines
}

} // verus!
