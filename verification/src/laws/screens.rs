//! What stands on the screen: the row that is highlighted there is the one that is acted on.

use crate::branches::BranchEntryV;
use crate::components::branch_picker::{branch_list, branch_parts, branch_pinned, branch_rows, shown_repo};
use crate::components::list_view::lemma_selection_is_visible;
use crate::components::new_branch::base_rows_of;
use crate::components::repo_list::{repo_list, repo_parts, repo_rows};
use crate::components::workspace_list::{workspace_list, workspace_parts, workspace_rows};
use crate::display::sanitized;
use crate::input::SearchableListV;
use crate::laws::lists::highlights;
use crate::path::PathRules;
use crate::recency::RecencyKeyV;
use crate::screens::repo::{RepoEntryV, RepoViewV};
use crate::screens::workspace::{WorkspaceEntryV, WorkspacePickerV};
use crate::state::AppStateV;
use vstd::prelude::*;
use vstd::string::*;

verus! {

/// Whether every row of a list stands for an item.
pub open spec fn rows_stand_for_items(list: SearchableListV, count: nat) -> bool {
    &&& list.filtered.len() <= usize::MAX
    &&& forall|i: int|
        0 <= i < list.filtered.len() ==> (#[trigger] list.filtered[i]).0 < count
}

proof fn lemma_visible_rows(list: SearchableListV, rows: int)
    requires
        list.filtered.len() <= usize::MAX,
    ensures
        forall|i: int|
            0 <= i < list.visible(rows).len() ==> (#[trigger] list.visible(rows)[i]).0
                < list.filtered.len() && list.visible(rows)[i].1 == list.filtered[list.visible(
                rows,
            )[i].0 as int].0,
{
    let items = list.visible(rows);
    let start = list.window_start();
    let inside = Seq::new(
        (list.window_end(rows) - start) as nat,
        |i: int| ((start + i) as usize, list.filtered[start + i].0),
    );
    assert forall|i: int| 0 <= i < inside.len() implies (#[trigger] inside[i]).0
        < list.filtered.len() && inside[i].1 == list.filtered[inside[i].0 as int].0 by {}
    assert forall|i: int| 0 <= i < items.len() implies (#[trigger] items[i]).0
        < list.filtered.len() && items[i].1 == list.filtered[items[i].0 as int].0 by {
        match list.selected_outside(rows) {
            Some(position) => {
                if position < start {
                    if i > 0 {
                        assert(items[i] == inside[i - 1]);
                    }
                } else if i < inside.len() {
                    assert(items[i] == inside[i]);
                }
            },
            None => {
                assert(items[i] == inside[i]);
            },
        }
    }
}

proof fn lemma_repo_rows(visible: Seq<(usize, usize)>, entries: Seq<RepoEntryV>)
    requires
        forall|i: int| 0 <= i < visible.len() ==> (#[trigger] visible[i]).1 < entries.len(),
    ensures
        repo_rows(visible, entries).len() == visible.len(),
        forall|i: int|
            0 <= i < visible.len() ==> #[trigger] repo_rows(visible, entries)[i] == repo_parts(
                entries[visible[i].1 as int],
            ),
    decreases visible.len(),
{
    if visible.len() > 0 {
        let before = visible.drop_last();
        assert forall|i: int| 0 <= i < before.len() implies (#[trigger] before[i]).1
            < entries.len() by {
            assert(before[i] == visible[i]);
        }
        lemma_repo_rows(before, entries);
        assert(visible[visible.len() - 1].1 < entries.len());
        let rows = repo_rows(visible, entries);
        assert forall|i: int| 0 <= i < visible.len() implies #[trigger] rows[i] == repo_parts(
            entries[visible[i].1 as int],
        ) by {
            if i < before.len() {
                assert(rows[i] == repo_rows(before, entries)[i]);
                assert(before[i] == visible[i]);
            }
        }
    }
}

proof fn lemma_branch_rows(
    visible: Seq<(usize, usize)>,
    entries: Seq<BranchEntryV>,
    pins: Seq<RecencyKeyV>,
    repo_path: Option<Seq<u8>>,
    rules: PathRules,
)
    requires
        forall|i: int| 0 <= i < visible.len() ==> (#[trigger] visible[i]).1 < entries.len(),
    ensures
        branch_rows(visible, entries, pins, repo_path, rules).len() == visible.len(),
        forall|i: int|
            0 <= i < visible.len() ==> #[trigger] branch_rows(
                visible,
                entries,
                pins,
                repo_path,
                rules,
            )[i] == branch_parts(
                entries[visible[i].1 as int],
                branch_pinned(pins, repo_path, entries[visible[i].1 as int], rules),
            ),
    decreases visible.len(),
{
    if visible.len() > 0 {
        let before = visible.drop_last();
        assert forall|i: int| 0 <= i < before.len() implies (#[trigger] before[i]).1
            < entries.len() by {
            assert(before[i] == visible[i]);
        }
        lemma_branch_rows(before, entries, pins, repo_path, rules);
        assert(visible[visible.len() - 1].1 < entries.len());
        let rows = branch_rows(visible, entries, pins, repo_path, rules);
        assert forall|i: int| 0 <= i < visible.len() implies #[trigger] rows[i] == branch_parts(
            entries[visible[i].1 as int],
            branch_pinned(pins, repo_path, entries[visible[i].1 as int], rules),
        ) by {
            if i < before.len() {
                assert(rows[i] == branch_rows(before, entries, pins, repo_path, rules)[i]);
                assert(before[i] == visible[i]);
            }
        }
    }
}

proof fn lemma_workspace_rows(visible: Seq<(usize, usize)>, entries: Seq<WorkspaceEntryV>)
    requires
        forall|i: int| 0 <= i < visible.len() ==> (#[trigger] visible[i]).1 < entries.len(),
    ensures
        workspace_rows(visible, entries).len() == visible.len(),
        forall|i: int|
            0 <= i < visible.len() ==> #[trigger] workspace_rows(visible, entries)[i]
                == workspace_parts(entries[visible[i].1 as int]),
    decreases visible.len(),
{
    if visible.len() > 0 {
        let before = visible.drop_last();
        assert forall|i: int| 0 <= i < before.len() implies (#[trigger] before[i]).1
            < entries.len() by {
            assert(before[i] == visible[i]);
        }
        lemma_workspace_rows(before, entries);
        assert(visible[visible.len() - 1].1 < entries.len());
        let rows = workspace_rows(visible, entries);
        assert forall|i: int| 0 <= i < visible.len() implies #[trigger] rows[i] == workspace_parts(
            entries[visible[i].1 as int],
        ) by {
            if i < before.len() {
                assert(rows[i] == workspace_rows(before, entries)[i]);
                assert(before[i] == visible[i]);
            }
        }
    }
}

/// The row that the screen highlights among the repositories shows the highlighted one, by its
/// name and what tells it apart, with a mark exactly where it is open.
pub proof fn lemma_screen_highlights_the_repository(
    view: RepoViewV,
    rows: int,
    millis: nat,
    item: int,
)
    requires
        rows_stand_for_items(view.list, view.entries.len()),
        highlights(view.list, item),
    ensures
        ({
            let screen = repo_list(view, rows, millis);
            let entry = view.entries[item];
            &&& screen.selected matches Some(place) && place < screen.rows.len()
            &&& screen.rows[screen.selected->0 as int].left.len() == 1
            &&& entry.disambiguator is None
                ==> screen.rows[screen.selected->0 as int].left[0].text == entry.repo.name
            &&& entry.disambiguator matches Some(place)
                ==> screen.rows[screen.selected->0 as int].left[0].text == entry.repo.name + " ("@
                + place + ")"@
            &&& screen.rows[screen.selected->0 as int].suffix.len() > 0 <==> entry.is_open
        }),
{
    let items = view.list.visible(rows);
    lemma_selection_is_visible(view.list, rows);
    lemma_visible_rows(view.list, rows);
    assert forall|i: int| 0 <= i < items.len() implies (#[trigger] items[i]).1
        < view.entries.len() by {
        assert(view.list.filtered[items[i].0 as int].0 < view.entries.len());
    }
    lemma_repo_rows(items, view.entries);
    let screen = repo_list(view, rows, millis);
    let place = screen.selected->0 as int;
    assert(items[place].1 == item);
    assert(screen.rows[place] == repo_parts(view.entries[item]));
}

/// The row that the screen highlights among the branches shows the highlighted one by its name,
/// that of a remote branch behind its remote.
pub proof fn lemma_screen_highlights_the_branch(
    state: AppStateV,
    rows: int,
    millis: nat,
    item: int,
)
    requires
        rows_stand_for_items(state.branch_view.list, state.branch_view.entries.len()),
        highlights(state.branch_view.list, item),
    ensures
        ({
            let screen = branch_list(state, rows, millis);
            let entry = state.branch_view.entries[item];
            &&& screen.selected matches Some(place) && place < screen.rows.len()
            &&& screen.rows[screen.selected->0 as int].left.len() > 0
            &&& entry.remote is None ==> screen.rows[screen.selected->0 as int].left[0].text
                == sanitized(entry.name)
            &&& entry.remote matches Some(remote)
                ==> screen.rows[screen.selected->0 as int].left[0].text == sanitized(
                remote + "/"@ + entry.name,
            )
        }),
{
    let view = state.branch_view;
    let items = view.list.visible(rows);
    lemma_selection_is_visible(view.list, rows);
    lemma_visible_rows(view.list, rows);
    assert forall|i: int| 0 <= i < items.len() implies (#[trigger] items[i]).1
        < view.entries.len() by {
        assert(view.list.filtered[items[i].0 as int].0 < view.entries.len());
    }
    let pins = state.pins.entries.deep_view();
    let repo_path = shown_repo(state.mode);
    let rules = state.repo_view.path_rules;
    lemma_branch_rows(items, view.entries, pins, repo_path, rules);
    let screen = branch_list(state, rows, millis);
    let place = screen.selected->0 as int;
    assert(items[place].1 == item);
    assert(screen.rows[place] == branch_parts(
        view.entries[item],
        branch_pinned(pins, repo_path, view.entries[item], rules),
    ));
}

/// The row that the screen highlights among the workspaces shows the highlighted one by its
/// name.
pub proof fn lemma_screen_highlights_the_workspace(
    picker: WorkspacePickerV,
    rows: int,
    item: int,
)
    requires
        rows_stand_for_items(picker.list, picker.entries.len()),
        highlights(picker.list, item),
    ensures
        ({
            let screen = workspace_list(picker, rows);
            &&& screen.selected matches Some(place) && place < screen.rows.len()
            &&& screen.rows[screen.selected->0 as int].left.len() > 0
            &&& screen.rows[screen.selected->0 as int].left[0].text == sanitized(
                picker.entries[item].name,
            )
        }),
{
    let items = picker.list.visible(rows);
    lemma_selection_is_visible(picker.list, rows);
    lemma_visible_rows(picker.list, rows);
    assert forall|i: int| 0 <= i < items.len() implies (#[trigger] items[i]).1
        < picker.entries.len() by {
        assert(picker.list.filtered[items[i].0 as int].0 < picker.entries.len());
    }
    lemma_workspace_rows(items, picker.entries);
    let screen = workspace_list(picker, rows);
    let place = screen.selected->0 as int;
    assert(items[place].1 == item);
    assert(screen.rows[place] == workspace_parts(picker.entries[item]));
}

/// The bases stand on the screen row by row as the list shows them.
pub proof fn lemma_screen_shows_the_bases(bases: Seq<Seq<char>>, shown: Seq<(usize, i64)>)
    requires
        forall|i: int| 0 <= i < shown.len() ==> (#[trigger] shown[i]).0 < bases.len(),
    ensures
        base_rows_of(bases, shown).len() == shown.len(),
        forall|i: int|
            0 <= i < shown.len() ==> (#[trigger] base_rows_of(bases, shown)[i]).text == sanitized(
                bases[shown[i].0 as int],
            ),
    decreases shown.len(),
{
    if shown.len() > 0 {
        let before = shown.drop_last();
        assert forall|i: int| 0 <= i < before.len() implies (#[trigger] before[i]).0
            < bases.len() by {
            assert(before[i] == shown[i]);
        }
        lemma_screen_shows_the_bases(bases, before);
        assert(shown[shown.len() - 1].0 < bases.len());
        let rows = base_rows_of(bases, shown);
        assert forall|i: int| 0 <= i < shown.len() implies (#[trigger] rows[i]).text == sanitized(
            bases[shown[i].0 as int],
        ) by {
            if i < before.len() {
                assert(rows[i] == base_rows_of(bases, before)[i]);
                assert(before[i] == shown[i]);
            }
        }
    }
}

} // verus!
