//! The list of branches.

use crate::branches::{BranchEntry, BranchEntryV};
use crate::components::list_view::{busy_suffix, find_selected, list_title, scroll_list, selected_place, spinner_suffix, title_of, viewport, ListView, ListViewV, RowParts, RowPartsV};
use crate::components::span::{append, line_of, raw_span, toned_span, Span, SpanStyle, SpanV, Tone, Weight};
use crate::display::{sanitize, sanitized};
use crate::input::SearchableListV;
use crate::path::{PathBuf, PathRules};
use crate::pins::{is_pinned, PinStore};
use crate::recency::RecencyKeyV;
use crate::screens::branch::BranchViewV;
use crate::state::{AppState, AppStateV, ModeV};
use crate::text::{concat, owned};
use vstd::prelude::*;
use vstd::string::*;

verus! {

/// The name of a branch with what is known of it: remote ones are dimmed and carry no marks.
pub open spec fn branch_left(branch: BranchEntryV) -> Seq<SpanV> {
    if branch.remote is Some {
        seq![
            SpanV {
                text: sanitized(branch.id().display()),
                style: SpanStyle { tone: Tone::Muted, weight: Weight::Dim },
            },
        ]
    } else {
        let name = seq![raw_span(sanitized(branch.name))];
        let worktree = if branch.worktree_path is Some {
            name.push(toned_span(" (worktree)"@, Tone::Secondary))
        } else {
            name
        };
        let current = if branch.is_current {
            worktree.push(toned_span(" *"@, Tone::Secondary))
        } else {
            worktree
        };
        if branch.is_default {
            current.push(toned_span(" (default)"@, Tone::Muted))
        } else {
            current
        }
    }
}

/// The marks at the right edge.
pub open spec fn branch_suffix(branch: BranchEntryV, pinned: bool) -> Seq<SpanV> {
    let pin = if pinned {
        seq![toned_span("◆ pin"@, Tone::Muted)]
    } else {
        Seq::empty()
    };
    if branch.open_workspace_id is Some {
        let lead = if pin.len() > 0 {
            pin.push(raw_span("  "@))
        } else {
            pin
        };
        lead.push(toned_span("● open"@, Tone::Open))
    } else {
        pin
    }
}

pub open spec fn branch_parts(branch: BranchEntryV, pinned: bool) -> RowPartsV {
    RowPartsV { left: branch_left(branch), suffix: branch_suffix(branch, pinned) }
}

/// The row of a branch.
pub fn branch_item(branch: &BranchEntry, pinned: bool) -> (row: RowParts)
    ensures
        row.deep_view() == branch_parts(branch.deep_view(), pinned),
{
    let ghost view = branch.deep_view();
    let mut left = if branch.remote.is_some() {
        line_of(
            Span::styled(
                sanitize(branch.display_name().as_str()),
                Tone::Muted,
                Weight::Dim,
            ),
        )
    } else {
        line_of(Span::raw(sanitize(branch.name.as_str())))
    };
    if branch.remote.is_none() && branch.worktree_path.is_some() {
        append(&mut left, Span::toned(owned(" (worktree)"), Tone::Secondary));
    }
    if branch.remote.is_none() && branch.is_current {
        append(&mut left, Span::toned(owned(" *"), Tone::Secondary));
    }
    if branch.remote.is_none() && branch.is_default {
        append(&mut left, Span::toned(owned(" (default)"), Tone::Muted));
    }
    assert(left.deep_view() =~= branch_left(view));
    let mut suffix: Vec<Span> = Vec::new();
    assert(suffix.deep_view() =~= Seq::empty());
    if pinned {
        append(&mut suffix, Span::toned(owned("◆ pin"), Tone::Muted));
    }
    if branch.open_workspace_id.is_some() {
        if pinned {
            append(&mut suffix, Span::raw(owned("  ")));
        }
        append(&mut suffix, Span::toned(owned("● open"), Tone::Open));
    }
    assert(suffix.deep_view() =~= branch_suffix(view, pinned));
    RowParts { left, suffix }
}

/// Whether a branch of the repository on the screen is pinned.
pub open spec fn branch_pinned(
    pins: Seq<RecencyKeyV>,
    repo_path: Option<Seq<u8>>,
    branch: BranchEntryV,
    rules: PathRules,
) -> bool {
    match repo_path {
        Some(path) => is_pinned(
            pins,
            RecencyKeyV::Branch { repo_path: path, branch: branch.id() },
            rules,
        ),
        None => false,
    }
}

/// The rows of the visible positions that have an entry.
pub open spec fn branch_rows(
    visible: Seq<(usize, usize)>,
    entries: Seq<BranchEntryV>,
    pins: Seq<RecencyKeyV>,
    repo_path: Option<Seq<u8>>,
    rules: PathRules,
) -> Seq<RowPartsV>
    decreases visible.len(),
{
    if visible.len() == 0 {
        Seq::empty()
    } else {
        let before = branch_rows(visible.drop_last(), entries, pins, repo_path, rules);
        let index = visible.last().1;
        if index < entries.len() {
            let branch = entries[index as int];
            before.push(branch_parts(branch, branch_pinned(pins, repo_path, branch, rules)))
        } else {
            before
        }
    }
}

fn rows_of(
    visible: &Vec<(usize, usize)>,
    entries: &Vec<BranchEntry>,
    pins: &PinStore,
    repo_path: Option<&PathBuf>,
    rules: PathRules,
) -> (rows: Vec<RowParts>)
    ensures
        rows.deep_view() == branch_rows(
            visible@,
            entries.deep_view(),
            pins.entries.deep_view(),
            repo_path.deep_view(),
            rules,
        ),
{
    let ghost all = entries.deep_view();
    let ghost pinned_keys = pins.entries.deep_view();
    let ghost path = repo_path.deep_view();
    let mut rows: Vec<RowParts> = Vec::new();
    let mut i: usize = 0;
    assert(rows.deep_view() =~= branch_rows(visible@.take(0), all, pinned_keys, path, rules));
    while i < visible.len()
        invariant
            i <= visible.len(),
            all == entries.deep_view(),
            pinned_keys == pins.entries.deep_view(),
            path == repo_path.deep_view(),
            rows.deep_view() == branch_rows(visible@.take(i as int), all, pinned_keys, path, rules),
        decreases visible.len() - i,
    {
        assert(visible@.take(i + 1).drop_last() =~= visible@.take(i as int));
        let index: usize = visible[i].1;
        if index < entries.len() {
            let ghost before = rows.deep_view();
            let pinned = match repo_path {
                Some(repo_path) => pins.branch_is_pinned(repo_path, &entries[index].id(), rules),
                None => false,
            };
            let row = branch_item(&entries[index], pinned);
            let ghost added = row.deep_view();
            rows.push(row);
            assert(rows.deep_view() =~= before.push(added));
        }
        i = i + 1;
    }
    assert(visible@.take(i as int) =~= visible@);
    rows
}

/// What is going on while branches are loaded or fetched.
pub open spec fn loading_suffix(view: BranchViewV, millis: nat) -> Seq<char> {
    if view.loading {
        spinner_suffix("loading"@, millis)
    } else if view.fetching_remote_repo is Some {
        spinner_suffix("fetching"@, millis)
    } else {
        Seq::empty()
    }
}

/// What is shown while no branch was found.
pub open spec fn loading_notice(loading: bool, rows: Seq<RowPartsV>) -> Option<SpanV> {
    if loading && rows.len() == 0 {
        Some(toned_span("Loading branches…"@, Tone::Muted))
    } else {
        None
    }
}

/// The path of the repository on the screen.
pub open spec fn shown_repo(mode: ModeV) -> Option<Seq<u8>> {
    match mode.context() {
        Some(context) => Some(context.repo_path),
        None => None,
    }
}

/// The list of branches, once it is scrolled.
pub open spec fn branch_list(state: AppStateV, rows: int, millis: nat) -> ListViewV {
    let rules = state.repo_view.path_rules;
    let view = state.branch_view;
    let shown = branch_rows(
        view.list.visible(rows),
        view.entries,
        state.pins.entries.deep_view(),
        shown_repo(state.mode),
        rules,
    );
    ListViewV {
        rows: shown,
        notice: loading_notice(view.loading, shown),
        selected: selected_place(view.list, rows),
        title: list_title(
            view.list.filtered.len(),
            view.entries.len(),
            "branches"@,
            loading_suffix(view, millis),
        ),
    }
}

/// The state once the list is laid out at some height.
pub open spec fn branch_list_laid_out(state: AppStateV, list_height: int) -> AppStateV {
    let rows = viewport(list_height);
    AppStateV {
        active_list_rows: rows as usize,
        branch_view: BranchViewV {
            list: SearchableListV {
                scroll_offset: state.branch_view.list.scrolled(rows) as usize,
                ..state.branch_view.list
            },
            ..state.branch_view
        },
        ..state
    }
}

/// Lays the list of branches out at some height.
pub fn lay_out(state: &mut AppState, list_height: u16, millis: u64) -> (view: ListView)
    ensures
        final(state).deep_view() == branch_list_laid_out(
            old(state).deep_view(),
            list_height as int,
        ),
        view.deep_view() == branch_list(
            final(state).deep_view(),
            viewport(list_height as int),
            millis as nat,
        ),
{
    let rules = state.repo_view.path_rules;
    let rows = scroll_list(&mut state.branch_view.list, list_height);
    state.active_list_rows = rows;
    let visible = state.branch_view.list.visible_items(rows);
    let selected = find_selected(&visible, state.branch_view.list.selected);
    let repo_path: Option<&PathBuf> = match state.branch_context() {
        Some(context) => Some(&context.repo_path),
        None => None,
    };
    let shown = rows_of(&visible, &state.branch_view.entries, &state.pins, repo_path, rules);
    let loading = state.branch_view.loading;
    assert(shown.deep_view().len() == shown@.len());
    let notice = if loading && shown.len() == 0 {
        Some(Span::toned(owned("Loading branches…"), Tone::Muted))
    } else {
        None
    };
    let suffix = if loading {
        busy_suffix("loading", millis)
    } else if state.branch_view.fetching_remote_repo.is_some() {
        busy_suffix("fetching", millis)
    } else {
        String::new()
    };
    assert(suffix@ =~= loading_suffix(state.deep_view().branch_view, millis as nat));
    let title = title_of(
        state.branch_view.list.filtered.len(),
        state.branch_view.entries.len(),
        "branches",
        suffix.as_str(),
    );
    ListView { rows: shown, notice, selected, title }
}

/// What the search field above the branches is called.
pub fn search_title(state: &AppState) -> (title: String)
    ensures
        title@ == sanitized(
            match state.deep_view().mode.context() {
                Some(context) => context.repo_name,
                None => "?"@,
            },
        ) + " — select branch"@,
{
    let name = match state.branch_context() {
        Some(context) => sanitize(context.repo_name.as_str()),
        None => sanitize("?"),
    };
    concat(name.as_str(), " — select branch")
}

} // verus!
