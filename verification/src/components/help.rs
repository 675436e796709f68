//! The help: which keys do what on the screen below it.

use crate::components::list_row::blanks;
use crate::components::span::{append_line, blank_line, line_of, line_of_three, raw_span, toned_span, Span, SpanStyle, SpanV, Tone, Weight};
use crate::config::keys::{chord_display, command_description, command_name, Binding, BindingMode, HelpSection, HelpSectionV, KeysConfig, KeysConfigV};
use crate::input::{greatest, least, SearchableList, SearchableListV};
use crate::state::{HelpBindingRow, HelpBindingRowV, HelpOverlayState, HelpOverlayV};
use crate::text::{chars_of, concat, concat3, decimal, decimal_text, owned, same_text};
use vstd::prelude::*;

verus! {

/// The row of a binding.
pub open spec fn help_row(section_name: Seq<char>, binding: Binding) -> HelpBindingRowV {
    HelpBindingRowV {
        section_name,
        key_display: chord_display(binding.chord),
        command_name: command_name(binding.command),
        description: command_description(binding.command),
    }
}

pub open spec fn section_rows(section: HelpSectionV) -> Seq<HelpBindingRowV> {
    section.bindings.map_values(|binding: Binding| help_row(section.name, binding))
}

/// The rows of all sections, one after the other.
pub open spec fn help_rows(sections: Seq<HelpSectionV>) -> Seq<HelpBindingRowV>
    decreases sections.len(),
{
    if sections.len() == 0 {
        Seq::empty()
    } else {
        help_rows(sections.drop_last()) + section_rows(sections.last())
    }
}

/// The help for a screen, with nothing searched for.
pub open spec fn fresh_overlay(keys: KeysConfigV, mode: BindingMode) -> HelpOverlayV {
    let rows = help_rows(keys.help(mode));
    HelpOverlayV { rows, list: SearchableListV::fresh(rows.len()) }
}

#[verifier::loop_isolation(false)]
fn add_section_rows(rows: &mut Vec<HelpBindingRow>, section: &HelpSection)
    ensures
        final(rows).deep_view() == old(rows).deep_view() + section_rows(section.deep_view()),
{
    let ghost start = rows.deep_view();
    let ghost wanted = section_rows(section.deep_view());
    let mut i: usize = 0;
    assert(start + wanted.take(0) =~= start);
    while i < section.bindings.len()
        invariant
            i <= section.bindings.len(),
            rows.deep_view() == start + wanted.take(i as int),
        decreases section.bindings.len() - i,
    {
        let ghost before = rows.deep_view();
        let binding = section.bindings[i];
        let row = HelpBindingRow {
            section_name: section.name,
            key_display: binding.chord.to_text(),
            command_name: binding.command.name(),
            description: binding.command.description(),
        };
        let ghost added = row.deep_view();
        assert(added == wanted[i as int]);
        rows.push(row);
        assert(rows.deep_view() =~= before.push(added));
        assert(start + wanted.take(i + 1) =~= before.push(added));
        i = i + 1;
    }
    assert(wanted.take(wanted.len() as int) =~= wanted);
}

/// The help for a screen.
#[verifier::loop_isolation(false)]
pub fn overlay(keys: &KeysConfig, mode: BindingMode) -> (overlay: HelpOverlayState)
    ensures
        overlay.deep_view() == fresh_overlay(keys.deep_view(), mode),
{
    let sections = keys.sections(mode);
    let ghost all = sections.deep_view();
    let mut rows: Vec<HelpBindingRow> = Vec::new();
    let mut i: usize = 0;
    assert(rows.deep_view() =~= help_rows(all.take(0)));
    while i < sections.len()
        invariant
            i <= sections.len(),
            rows.deep_view() == help_rows(all.take(i as int)),
        decreases sections.len() - i,
    {
        proof {
            assert(all.take(i + 1).drop_last() =~= all.take(i as int));
            assert(all.take(i + 1).last() == sections@[i as int].deep_view());
        }
        add_section_rows(&mut rows, &sections[i]);
        i = i + 1;
    }
    assert(all.take(all.len() as int) =~= all);
    let list = SearchableList::new(rows.len());
    assert(rows.deep_view().len() == rows@.len());
    HelpOverlayState { rows, list }
}

/// One line of the help.
#[derive(Debug, Clone, Copy, PartialEq, Eq)]
pub enum HelpLayoutEntry {
    Section(&'static str),
    Blank,
    Binding(usize),
}

#[verifier::ext_equal]
pub enum HelpLayoutEntryV {
    Section(Seq<char>),
    Blank,
    Binding(usize),
}

impl DeepView for HelpLayoutEntry {
    type V = HelpLayoutEntryV;

    open spec fn deep_view(&self) -> HelpLayoutEntryV {
        match self {
            HelpLayoutEntry::Section(name) => HelpLayoutEntryV::Section(name@),
            HelpLayoutEntry::Blank => HelpLayoutEntryV::Blank,
            HelpLayoutEntry::Binding(index) => HelpLayoutEntryV::Binding(*index),
        }
    }
}

/// The section that the last line belongs to.
pub open spec fn last_section(rows: Seq<HelpBindingRowV>, shown: Seq<(usize, i64)>) -> Option<
    Seq<char>,
>
    decreases shown.len(),
{
    if shown.len() == 0 {
        None
    } else if shown.last().0 < rows.len() {
        Some(rows[shown.last().0 as int].section_name)
    } else {
        last_section(rows, shown.drop_last())
    }
}

/// The lines of the help: each section under its heading, with a blank line between them.
pub open spec fn layout(rows: Seq<HelpBindingRowV>, shown: Seq<(usize, i64)>) -> Seq<
    HelpLayoutEntryV,
>
    decreases shown.len(),
{
    if shown.len() == 0 {
        Seq::empty()
    } else {
        let before = layout(rows, shown.drop_last());
        let section = last_section(rows, shown.drop_last());
        let index = shown.last().0;
        if index >= rows.len() {
            before
        } else {
            let name = rows[index as int].section_name;
            let headed = if section == Some(name) {
                before
            } else if section is Some {
                before.push(HelpLayoutEntryV::Blank).push(HelpLayoutEntryV::Section(name))
            } else {
                before.push(HelpLayoutEntryV::Section(name))
            };
            headed.push(HelpLayoutEntryV::Binding(index))
        }
    }
}

/// The lines of the help.
#[verifier::loop_isolation(false)]
pub fn layout_entries(overlay: &HelpOverlayState) -> (entries: Vec<HelpLayoutEntry>)
    ensures
        entries.deep_view() == layout(overlay.deep_view().rows, overlay.deep_view().list.filtered),
{
    let ghost rows = overlay.deep_view().rows;
    let ghost shown = overlay.deep_view().list.filtered;
    let mut entries: Vec<HelpLayoutEntry> = Vec::new();
    let mut current: Option<&'static str> = None;
    let mut i: usize = 0;
    assert(entries.deep_view() =~= layout(rows, shown.take(0)));
    while i < overlay.list.filtered.len()
        invariant
            i <= overlay.list.filtered.len(),
            entries.deep_view() == layout(rows, shown.take(i as int)),
            current.deep_view() == last_section(rows, shown.take(i as int)),
        decreases overlay.list.filtered.len() - i,
    {
        proof {
            assert(shown.take(i + 1).drop_last() =~= shown.take(i as int));
            assert(shown.take(i + 1).last() == overlay.list.filtered@[i as int]);
        }
        let index: usize = overlay.list.filtered[i].0;
        if index < overlay.rows.len() {
            let ghost before = entries.deep_view();
            let name = overlay.rows[index].section_name;
            assert(rows[index as int].section_name == name@);
            let same = match current {
                Some(section) => same_text(section, name),
                None => false,
            };
            if !same {
                if current.is_some() {
                    entries.push(HelpLayoutEntry::Blank);
                    assert(entries.deep_view() =~= before.push(HelpLayoutEntryV::Blank));
                }
                let ghost middle = entries.deep_view();
                entries.push(HelpLayoutEntry::Section(name));
                assert(entries.deep_view() =~= middle.push(HelpLayoutEntryV::Section(name@)));
            }
            current = Some(name);
            let ghost headed = entries.deep_view();
            entries.push(HelpLayoutEntry::Binding(index));
            assert(entries.deep_view() =~= headed.push(HelpLayoutEntryV::Binding(index)));
        }
        i = i + 1;
    }
    assert(shown.take(shown.len() as int) =~= shown);
    entries
}

/// On which lines the bindings stand.
pub open spec fn binding_lines(lines: Seq<HelpLayoutEntryV>) -> Seq<usize>
    decreases lines.len(),
{
    if lines.len() == 0 {
        Seq::empty()
    } else {
        let before = binding_lines(lines.drop_last());
        if lines.last() is Binding {
            before.push((lines.len() - 1) as usize)
        } else {
            before
        }
    }
}

/// On which lines the bindings stand.
#[verifier::loop_isolation(false)]
pub fn binding_items(entries: &Vec<HelpLayoutEntry>) -> (lines: Vec<usize>)
    ensures
        lines@ == binding_lines(entries.deep_view()),
        forall|i: int| 0 <= i < lines@.len() ==> (#[trigger] lines@[i]) < entries@.len(),
{
    let ghost all = entries.deep_view();
    let mut lines: Vec<usize> = Vec::new();
    let mut i: usize = 0;
    assert(lines@ =~= binding_lines(all.take(0)));
    while i < entries.len()
        invariant
            i <= entries.len(),
            lines@ == binding_lines(all.take(i as int)),
            forall|k: int| 0 <= k < lines@.len() ==> (#[trigger] lines@[k]) < i,
        decreases entries.len() - i,
    {
        proof {
            assert(all.take(i + 1).drop_last() =~= all.take(i as int));
            assert(all.take(i + 1).last() == entries@[i as int].deep_view());
        }
        match entries[i] {
            HelpLayoutEntry::Binding(_) => lines.push(i),
            _ => {},
        }
        i = i + 1;
    }
    assert(all.take(all.len() as int) =~= all);
    lines
}

/// The line of the selected binding.
pub open spec fn selected_line(list: SearchableListV, lines: Seq<usize>) -> int {
    let selected = least(list.position(), list.filtered.len() - 1);
    if selected < lines.len() {
        lines[selected] as int
    } else {
        0
    }
}

/// The scroll offset that brings the selected binding into view with the least movement and
/// leaves no blank lines at the end.
pub open spec fn help_scroll(overlay: HelpOverlayV, viewport_rows: int) -> int {
    let list = overlay.list;
    let lines = layout(overlay.rows, list.filtered);
    if list.filtered.len() == 0 {
        0
    } else {
        let rows = greatest(viewport_rows, 1);
        let line = selected_line(list, binding_lines(lines));
        let offset = if line < list.scroll_offset {
            line
        } else if line >= list.scroll_offset + rows {
            line + 1 - rows
        } else {
            list.scroll_offset as int
        };
        least(offset, greatest(lines.len() - rows, 0))
    }
}

/// Brings the selected binding into view.
pub fn update_scroll(overlay: &mut HelpOverlayState, viewport_rows: usize)
    ensures
        final(overlay).deep_view() == (HelpOverlayV {
            list: SearchableListV {
                scroll_offset: help_scroll(
                    old(overlay).deep_view(),
                    viewport_rows as int,
                ) as usize,
                ..old(overlay).deep_view().list
            },
            ..old(overlay).deep_view()
        }),
{
    let count: usize = overlay.list.filtered.len();
    if count == 0 {
        overlay.list.scroll_offset = 0;
        return;
    }
    let entries = layout_entries(overlay);
    assert(entries.deep_view().len() == entries@.len());
    let lines = binding_items(&entries);
    let rows: usize = if viewport_rows > 1 {
        viewport_rows
    } else {
        1
    };
    let position: usize = match overlay.list.selected {
        Some(position) => position,
        None => 0,
    };
    let selected: usize = if position < count {
        position
    } else {
        count - 1
    };
    let line: usize = if selected < lines.len() {
        lines[selected]
    } else {
        0
    };
    if line < overlay.list.scroll_offset {
        overlay.list.scroll_offset = line;
    } else if line - overlay.list.scroll_offset >= rows {
        overlay.list.scroll_offset = line - rows + 1;
    }
    let limit: usize = if entries.len() > rows {
        entries.len() - rows
    } else {
        0
    };
    if overlay.list.scroll_offset > limit {
        overlay.list.scroll_offset = limit;
    }
}

/// A text with blanks behind it up to a number of characters.
pub open spec fn padded(text: Seq<char>, length: nat) -> Seq<char> {
    if text.len() >= length {
        text
    } else {
        text + blanks((length - text.len()) as nat)
    }
}

fn pad(text: &str, length: usize) -> (padded_text: String)
    ensures
        padded_text@ == padded(text@, length as nat),
{
    let mut out = owned(text);
    let mut count: usize = chars_of(text).len();
    let ghost start = text@.len();
    assert(out@ =~= text@ + blanks(0));
    while count < length
        invariant
            start == text@.len(),
            start <= count,
            count <= length || count == start,
            out@ == text@ + blanks((count - start) as nat),
        decreases length - count,
    {
        let ghost before = out@;
        out.push(' ');
        count = count + 1;
        assert(out@ =~= text@ + blanks((count - start) as nat));
    }
    assert(out@ =~= padded(text@, length as nat));
    out
}

/// One line of the help.
pub open spec fn help_line(rows: Seq<HelpBindingRowV>, entry: HelpLayoutEntryV) -> Seq<SpanV> {
    match entry {
        HelpLayoutEntryV::Section(name) => seq![
            SpanV {
                text: name + ":"@,
                style: SpanStyle { tone: Tone::Plain, weight: Weight::Heading },
            },
        ],
        HelpLayoutEntryV::Blank => Seq::empty(),
        HelpLayoutEntryV::Binding(index) => {
            let row = rows[index as int];
            seq![
                SpanV {
                    text: "  "@ + padded(row.key_display, 14),
                    style: SpanStyle { tone: Tone::Plain, weight: Weight::Bold },
                },
                raw_span(row.description),
                toned_span("  ("@ + row.command_name + ")"@, Tone::Muted),
            ]
        },
    }
}

/// The lines of the help; a note where nothing matches.
pub open spec fn help_screen(overlay: HelpOverlayV) -> Seq<Seq<SpanV>> {
    if overlay.list.filtered.len() == 0 {
        seq![
            seq![
                SpanV {
                    text: "No matching bindings"@,
                    style: SpanStyle { tone: Tone::Muted, weight: Weight::Italic },
                },
            ],
        ]
    } else {
        layout(overlay.rows, overlay.list.filtered).map_values(
            |entry: HelpLayoutEntryV| help_line(overlay.rows, entry),
        )
    }
}

/// Every binding in the layout is the row of one.
pub proof fn lemma_layout_rows(rows: Seq<HelpBindingRowV>, shown: Seq<(usize, i64)>)
    ensures
        forall|i: int|
            0 <= i < layout(rows, shown).len() ==> ((#[trigger] layout(rows, shown)[i]) matches
            HelpLayoutEntryV::Binding(index) ==> index < rows.len()),
    decreases shown.len(),
{
    if shown.len() > 0 {
        lemma_layout_rows(rows, shown.drop_last());
    }
}

/// The lines of the help.
#[verifier::loop_isolation(false)]
pub fn help_lines(overlay: &HelpOverlayState) -> (lines: Vec<Vec<Span>>)
    ensures
        lines.deep_view() == help_screen(overlay.deep_view()),
{
    let mut lines: Vec<Vec<Span>> = Vec::new();
    assert(lines.deep_view() =~= Seq::empty());
    if overlay.list.filtered.len() == 0 {
        append_line(
            &mut lines,
            line_of(Span::styled(owned("No matching bindings"), Tone::Muted, Weight::Italic)),
        );
        assert(lines.deep_view() =~= help_screen(overlay.deep_view()));
        return lines;
    }
    let ghost rows = overlay.deep_view().rows;
    let entries = layout_entries(overlay);
    let ghost all = entries.deep_view();
    let ghost wanted = help_screen(overlay.deep_view());
    proof {
        lemma_layout_rows(rows, overlay.deep_view().list.filtered);
    }
    let mut i: usize = 0;
    assert(wanted.take(0) =~= Seq::empty());
    while i < entries.len()
        invariant
            i <= entries.len(),
            lines.deep_view() == wanted.take(i as int),
        decreases entries.len() - i,
    {
        assert(all[i as int] == entries@[i as int].deep_view());
        let line = match entries[i] {
            HelpLayoutEntry::Section(name) => line_of(
                Span::styled(concat(name, ":"), Tone::Plain, Weight::Heading),
            ),
            HelpLayoutEntry::Blank => blank_line(),
            HelpLayoutEntry::Binding(index) => {
                let row = &overlay.rows[index];
                assert(rows[index as int] == row.deep_view());
                line_of_three(
                    Span::styled(
                        concat("  ", pad(row.key_display.as_str(), 14).as_str()),
                        Tone::Plain,
                        Weight::Bold,
                    ),
                    Span::raw(owned(row.description)),
                    Span::toned(concat3("  (", row.command_name, ")"), Tone::Muted),
                )
            },
        };
        assert(line.deep_view() == wanted[i as int]);
        append_line(&mut lines, line);
        i = i + 1;
        assert(wanted.take(i as int) =~= wanted.take(i - 1).push(wanted[i - 1]));
    }
    assert(wanted.take(i as int) =~= wanted);
    lines
}

/// The line of the help on which the selection stands.
pub fn selected_item(overlay: &HelpOverlayState) -> (line: Option<usize>)
    ensures
        line == match overlay.list.selected {
            Some(selected) => {
                let lines = binding_lines(
                    layout(overlay.deep_view().rows, overlay.deep_view().list.filtered),
                );
                if selected < lines.len() {
                    Some(lines[selected as int])
                } else {
                    None
                }
            },
            None => None,
        },
{
    let entries = layout_entries(overlay);
    let lines = binding_items(&entries);
    match overlay.list.selected {
        Some(selected) => if selected < lines.len() {
            Some(lines[selected])
        } else {
            None
        },
        None => None,
    }
}

/// What the list of bindings is called.
pub fn help_title(overlay: &HelpOverlayState) -> (title: String)
    ensures
        title@ == " "@ + decimal(overlay.deep_view().list.filtered.len())
            + " bindings (esc: close) "@,
{
    let count = decimal_text(overlay.list.filtered.len() as u64);
    concat3(" ", count.as_str(), " bindings (esc: close) ")
}

} // verus!
