//! The list of repositories.

use crate::components::list_view::{busy_suffix, find_selected, list_title, scroll_list, selected_place, spinner_suffix, title_of, viewport, ListView, ListViewV, RowParts, RowPartsV};
use crate::components::span::{line_of, raw_span, toned_span, Span, SpanV, Tone};
use crate::input::SearchableListV;
use crate::screens::repo::{RepoEntry, RepoEntryV, RepoViewV};
use crate::state::{AppState, AppStateV};
use crate::text::owned;
use vstd::prelude::*;
use vstd::string::*;

verus! {

/// The row of a repository: its name, and a mark where it is open.
pub open spec fn repo_parts(entry: RepoEntryV) -> RowPartsV {
    RowPartsV {
        left: seq![raw_span(entry.display())],
        suffix: if entry.is_open {
            seq![toned_span("● open"@, Tone::Open)]
        } else {
            Seq::empty()
        },
    }
}

pub fn repo_row(entry: &RepoEntry) -> (row: RowParts)
    ensures
        row.deep_view() == repo_parts(entry.deep_view()),
{
    let left = line_of(Span::raw(entry.display_name()));
    let suffix = if entry.is_open {
        line_of(Span::toned(owned("● open"), Tone::Open))
    } else {
        Vec::new()
    };
    let row = RowParts { left, suffix };
    assert(row.deep_view() =~= repo_parts(entry.deep_view()));
    row
}

/// The rows of the visible positions that have an entry.
pub open spec fn repo_rows(visible: Seq<(usize, usize)>, entries: Seq<RepoEntryV>) -> Seq<RowPartsV>
    decreases visible.len(),
{
    if visible.len() == 0 {
        Seq::empty()
    } else {
        let before = repo_rows(visible.drop_last(), entries);
        let index = visible.last().1;
        if index < entries.len() {
            before.push(repo_parts(entries[index as int]))
        } else {
            before
        }
    }
}

fn rows_of(visible: &Vec<(usize, usize)>, entries: &Vec<RepoEntry>) -> (rows: Vec<RowParts>)
    ensures
        rows.deep_view() == repo_rows(visible@, entries.deep_view()),
{
    let ghost all = entries.deep_view();
    let mut rows: Vec<RowParts> = Vec::new();
    let mut i: usize = 0;
    assert(rows.deep_view() =~= repo_rows(visible@.take(0), all));
    while i < visible.len()
        invariant
            i <= visible.len(),
            all == entries.deep_view(),
            rows.deep_view() == repo_rows(visible@.take(i as int), all),
        decreases visible.len() - i,
    {
        assert(visible@.take(i + 1).drop_last() =~= visible@.take(i as int));
        let index: usize = visible[i].1;
        if index < entries.len() {
            let ghost before = rows.deep_view();
            let row = repo_row(&entries[index]);
            let ghost added = row.deep_view();
            rows.push(row);
            assert(rows.deep_view() =~= before.push(added));
        }
        i = i + 1;
    }
    assert(visible@.take(i as int) =~= visible@);
    rows
}

/// What is shown while no repository was found.
pub open spec fn discovering_notice(loading: bool, rows: Seq<RowPartsV>) -> Option<SpanV> {
    if loading && rows.len() == 0 {
        Some(toned_span("Discovering repos…"@, Tone::Muted))
    } else {
        None
    }
}

/// The list of repositories, once it is scrolled.
pub open spec fn repo_list(view: RepoViewV, rows: int, millis: nat) -> ListViewV {
    let shown = repo_rows(view.list.visible(rows), view.entries);
    ListViewV {
        rows: shown,
        notice: discovering_notice(view.loading, shown),
        selected: selected_place(view.list, rows),
        title: list_title(
            view.list.filtered.len(),
            view.entries.len(),
            "repos"@,
            if view.loading {
                spinner_suffix("scanning"@, millis)
            } else {
                Seq::empty()
            },
        ),
    }
}

/// The state once the list is laid out at some height.
pub open spec fn repo_list_laid_out(state: AppStateV, list_height: int) -> AppStateV {
    let rows = viewport(list_height);
    AppStateV {
        active_list_rows: rows as usize,
        repo_view: RepoViewV {
            list: SearchableListV {
                scroll_offset: state.repo_view.list.scrolled(rows) as usize,
                ..state.repo_view.list
            },
            ..state.repo_view
        },
        ..state
    }
}

/// Lays the list of repositories out at some height.
pub fn lay_out(state: &mut AppState, list_height: u16, millis: u64) -> (view: ListView)
    ensures
        final(state).deep_view() == repo_list_laid_out(old(state).deep_view(), list_height as int),
        view.deep_view() == repo_list(
            final(state).deep_view().repo_view,
            viewport(list_height as int),
            millis as nat,
        ),
{
    let rows = scroll_list(&mut state.repo_view.list, list_height);
    state.active_list_rows = rows;
    let visible = state.repo_view.list.visible_items(rows);
    let selected = find_selected(&visible, state.repo_view.list.selected);
    let shown = rows_of(&visible, &state.repo_view.entries);
    let loading = state.repo_view.loading;
    assert(shown.deep_view().len() == shown@.len());
    let notice = if loading && shown.len() == 0 {
        Some(Span::toned(owned("Discovering repos…"), Tone::Muted))
    } else {
        None
    };
    let suffix = if loading {
        busy_suffix("scanning", millis)
    } else {
        String::new()
    };
    assert(!loading ==> suffix@ =~= Seq::empty());
    let title = title_of(
        state.repo_view.list.filtered.len(),
        state.repo_view.entries.len(),
        "repos",
        suffix.as_str(),
    );
    ListView { rows: shown, notice, selected, title }
}

} // verus!
