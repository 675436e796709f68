//! The list of repositories.

use crate::config::SortOrder;
use crate::effects::{EffectV, TickChangesV};
use crate::event::{AppEvent, FilterKeyV, FilterTarget};
use crate::git::scan::has_path;
use crate::git::RepoV;
use crate::herdr::{PaneInfoV, WorkspaceInfoV};
use crate::laws::lists::{highlights, shows};
use crate::laws::texts::{holds, lemma_holds_middle};
use crate::order::{in_order, not_after, rank_text, Rank};
use crate::path::{parts, same_path, same_place, within, PathRules};
use crate::recency::{key_position, same_key, RecencyKeyV};
use crate::screens::repo::{after_event, after_open, deepest_row, first_elsewhere, lemma_sorted_repos, pane_folders, rank_repos, sorted_repos, workspace_roots, RepoEntryV, RepoViewV};
use crate::state::{AppStateV, ModeV};
use crate::text::lowercase_of;
use crate::toasts::ToastKind;
use vstd::prelude::*;
use vstd::string::*;
use vstd::utf8::encode_utf8;

verus! {

/// Opening opens the highlighted row, whatever was searched for: a repository as a repository
/// and a folder as a folder, each at its own path, and shows its name meanwhile. Nothing else
/// changes. Outside of herdr it is an error.
pub proof fn lemma_opening_opens_the_highlighted_row(
    state: AppStateV,
    item: int,
    inside_herdr: bool,
)
    requires
        0 <= item < state.repo_view.entries.len(),
        highlights(state.repo_view.list, item),
    ensures
        ({
            let (after, effect) = after_open(state, inside_herdr);
            let repo = state.repo_view.entries[item].repo;
            if inside_herdr {
                &&& repo.is_git ==> effect == Some(EffectV::OpenRepo { repo_path: repo.path })
                &&& !repo.is_git ==> effect == Some(EffectV::OpenFolder { path: repo.path })
                &&& after.mode matches ModeV::Loading { message, branch } && branch is None && holds(
                    message,
                    repo.name,
                )
                &&& after == (AppStateV { mode: after.mode, ..state })
            } else {
                effect is None && after == state.told(
                    ToastKind::Error,
                    "not running inside herdr"@,
                )
            }
        }),
{
    let repo = state.repo_view.entries[item].repo;
    lemma_holds_middle("Opening "@, repo.name, "…"@);
}

/// Nothing is opened but what a shown row stands for.
pub proof fn lemma_only_a_shown_row_is_opened(state: AppStateV, inside_herdr: bool)
    ensures
        after_open(state, inside_herdr).1 matches Some(effect) ==> inside_herdr && exists|item: int|
            0 <= item < state.repo_view.entries.len() && #[trigger] shows(
                state.repo_view.list,
                item,
            ) && highlights(state.repo_view.list, item) && match effect {
                EffectV::OpenRepo { repo_path } => repo_path
                    == state.repo_view.entries[item].repo.path
                    && state.repo_view.entries[item].repo.is_git,
                EffectV::OpenFolder { path } => path == state.repo_view.entries[item].repo.path
                    && !state.repo_view.entries[item].repo.is_git,
                _ => false,
            },
{
    let list = state.repo_view.list;
    if list.selected is Some && list.selected->0 < list.filtered.len() {
        let item = list.filtered[list.selected->0 as int].0 as int;
        assert(shows(list, item));
        assert(highlights(list, item));
    }
}

/// A repository that is found is listed once, as it was found, behind those that are listed
/// already, which stay as they are; a second finding of its path changes nothing.
pub proof fn lemma_found_repository_is_listed_once(
    view: RepoViewV,
    repo: RepoV,
    canonical: Seq<u8>,
)
    ensures
        ({
            let after = view.with_repo(repo, canonical);
            let seen = exists|i: int|
                0 <= i < view.seen_paths.len() && same_path(
                    #[trigger] view.seen_paths[i],
                    repo.path,
                    view.path_rules,
                );
            let open = |paths: Seq<Seq<u8>>|
                exists|i: int|
                    0 <= i < paths.len() && same_place(
                        #[trigger] paths[i],
                        canonical,
                        view.path_rules,
                    );
            &&& after.list == view.list
            &&& seen ==> after == view
            &&& !seen ==> after.entries.len() == view.entries.len() + 1
                && after.entries.drop_last() == view.entries && after.entries.last().repo == repo
                && after.entries.last().canonical_path == canonical
                && after.entries.last().disambiguator is None
            &&& !seen && repo.is_git ==> after.entries.last().is_open == open(view.open_roots)
            &&& !seen && !repo.is_git ==> after.entries.last().is_open == open(view.open_folders)
            &&& has_path(after.seen_paths, repo.path, view.path_rules)
        }),
{
    let after = view.with_repo(repo, canonical);
    if !has_path(view.seen_paths, repo.path, view.path_rules) {
        assert(after.entries.drop_last() =~= view.entries);
        assert(same_path(
            after.seen_paths[view.seen_paths.len() as int],
            repo.path,
            view.path_rules,
        ));
    }
}

proof fn lemma_roots(workspaces: Seq<WorkspaceInfoV>, path: Seq<u8>, rules: PathRules)
    ensures
        (exists|i: int|
            0 <= i < workspace_roots(workspaces).len() && same_place(
                #[trigger] workspace_roots(workspaces)[i],
                path,
                rules,
            )) <==> (exists|k: int|
            0 <= k < workspaces.len() && (#[trigger] workspaces[k]).worktree is Some && same_place(
                encode_utf8(workspaces[k].worktree->0.repo_root),
                path,
                rules,
            )),
    decreases workspaces.len(),
{
    if workspaces.len() > 0 {
        let before = workspaces.drop_last();
        let roots = workspace_roots(workspaces);
        let inner = workspace_roots(before);
        lemma_roots(before, path, rules);
        if exists|i: int| 0 <= i < roots.len() && same_place(#[trigger] roots[i], path, rules) {
            let i = choose|i: int|
                0 <= i < roots.len() && same_place(#[trigger] roots[i], path, rules);
            if i < inner.len() {
                assert(inner[i] == roots[i]);
                let k = choose|k: int|
                    0 <= k < before.len() && (#[trigger] before[k]).worktree is Some && same_place(
                        encode_utf8(before[k].worktree->0.repo_root),
                        path,
                        rules,
                    );
                assert(workspaces[k] == before[k]);
            } else {
                assert(workspaces[workspaces.len() - 1].worktree is Some);
            }
        }
        if exists|k: int|
            0 <= k < workspaces.len() && (#[trigger] workspaces[k]).worktree is Some && same_place(
                encode_utf8(workspaces[k].worktree->0.repo_root),
                path,
                rules,
            ) {
            let k = choose|k: int|
                0 <= k < workspaces.len() && (#[trigger] workspaces[k]).worktree is Some
                    && same_place(encode_utf8(workspaces[k].worktree->0.repo_root), path, rules);
            if k < before.len() {
                assert(before[k] == workspaces[k]);
                let i = choose|i: int|
                    0 <= i < inner.len() && same_place(#[trigger] inner[i], path, rules);
                assert(roots[i] == inner[i]);
            } else {
                assert(same_place(roots[roots.len() - 1], path, rules));
            }
        }
    }
}

proof fn lemma_folders(panes: Seq<PaneInfoV>, path: Seq<u8>, rules: PathRules)
    ensures
        (exists|i: int|
            0 <= i < pane_folders(panes).len() && same_place(
                #[trigger] pane_folders(panes)[i],
                path,
                rules,
            )) <==> (exists|k: int|
            0 <= k < panes.len() && (#[trigger] panes[k]).cwd is Some && same_place(
                encode_utf8(panes[k].cwd->0),
                path,
                rules,
            )),
    decreases panes.len(),
{
    if panes.len() > 0 {
        let before = panes.drop_last();
        let folders = pane_folders(panes);
        let inner = pane_folders(before);
        lemma_folders(before, path, rules);
        if exists|i: int| 0 <= i < folders.len() && same_place(#[trigger] folders[i], path, rules) {
            let i = choose|i: int|
                0 <= i < folders.len() && same_place(#[trigger] folders[i], path, rules);
            if i < inner.len() {
                assert(inner[i] == folders[i]);
                let k = choose|k: int|
                    0 <= k < before.len() && (#[trigger] before[k]).cwd is Some && same_place(
                        encode_utf8(before[k].cwd->0),
                        path,
                        rules,
                    );
                assert(panes[k] == before[k]);
            } else {
                assert(panes[panes.len() - 1].cwd is Some);
            }
        }
        if exists|k: int|
            0 <= k < panes.len() && (#[trigger] panes[k]).cwd is Some && same_place(
                encode_utf8(panes[k].cwd->0),
                path,
                rules,
            ) {
            let k = choose|k: int|
                0 <= k < panes.len() && (#[trigger] panes[k]).cwd is Some && same_place(
                    encode_utf8(panes[k].cwd->0),
                    path,
                    rules,
                );
            if k < before.len() {
                assert(before[k] == panes[k]);
                let i = choose|i: int|
                    0 <= i < inner.len() && same_place(#[trigger] inner[i], path, rules);
                assert(folders[i] == inner[i]);
            } else {
                assert(same_place(folders[folders.len() - 1], path, rules));
            }
        }
    }
}

/// A repository is shown as open where a workspace has its root, and a folder where a pane stands
/// in it; each is told by its own kind of answer, and nothing else of a row changes.
pub proof fn lemma_open_marks_follow_herdr(
    event: AppEvent,
    state: AppStateV,
    changes: TickChangesV,
    item: int,
)
    requires
        0 <= item < state.repo_view.entries.len(),
        event is OpenWorkspacesLoaded || event is OpenFolderPanesLoaded,
    ensures
        ({
            let (after, changed) = after_event(event, state, changes)->0;
            let rules = state.repo_view.path_rules;
            let old_row = state.repo_view.entries[item];
            let row = after.repo_view.entries[item];
            &&& after_event(event, state, changes) is Some
            &&& changed == changes
            &&& after.repo_view.entries.len() == state.repo_view.entries.len()
            &&& row == (RepoEntryV { is_open: row.is_open, ..old_row })
            &&& event matches AppEvent::OpenWorkspacesLoaded { workspaces } ==> (old_row.repo.is_git
                ==> row.is_open == exists|k: int|
                0 <= k < workspaces.deep_view().len() && (
                #[trigger] workspaces.deep_view()[k]).worktree is Some && same_place(
                    encode_utf8(workspaces.deep_view()[k].worktree->0.repo_root),
                    old_row.canonical_path,
                    rules,
                ))
            &&& event matches AppEvent::OpenFolderPanesLoaded { panes } ==> (!old_row.repo.is_git
                ==> row.is_open == exists|k: int|
                0 <= k < panes.deep_view().len() && (#[trigger] panes.deep_view()[k]).cwd is Some
                    && same_place(
                    encode_utf8(panes.deep_view()[k].cwd->0),
                    old_row.canonical_path,
                    rules,
                ))
        }),
{
    let rules = state.repo_view.path_rules;
    let path = state.repo_view.entries[item].canonical_path;
    match event {
        AppEvent::OpenWorkspacesLoaded { workspaces } => {
            lemma_roots(workspaces.deep_view(), path, rules);
        },
        AppEvent::OpenFolderPanesLoaded { panes } => {
            lemma_folders(panes.deep_view(), path, rules);
        },
        _ => {},
    }
}

/// Whether a repository was opened at one of the first `count` places of what was opened last.
pub open spec fn opened_within(
    recency: Seq<RecencyKeyV>,
    entry: RepoEntryV,
    count: int,
    rules: PathRules,
) -> bool {
    exists|i: int|
        0 <= i < count && i < recency.len() && same_key(
            #[trigger] recency[i],
            RecencyKeyV::Repo { path: entry.canonical_path },
            rules,
        )
}

proof fn lemma_position_within(
    recency: Seq<RecencyKeyV>,
    key: RecencyKeyV,
    rules: PathRules,
)
    ensures
        match key_position(recency, key, rules) {
            Some(at) => at < recency.len() && same_key(recency[at as int], key, rules) && forall|
                i: int,
            |
                0 <= i < at ==> !same_key(#[trigger] recency[i], key, rules),
            None => forall|i: int|
                0 <= i < recency.len() ==> !same_key(#[trigger] recency[i], key, rules),
        },
    decreases recency.len(),
{
    if recency.len() > 0 && !same_key(recency[0], key, rules) {
        let rest = recency.drop_first();
        lemma_position_within(rest, key, rules);
        match key_position(rest, key, rules) {
            Some(at) => {
                assert(recency[at as int + 1] == rest[at as int]);
                assert forall|i: int| 0 <= i < at + 1 implies !same_key(
                    #[trigger] recency[i],
                    key,
                    rules,
                ) by {
                    if i > 0 {
                        assert(recency[i] == rest[i - 1]);
                    }
                }
            },
            None => {
                assert forall|i: int| 0 <= i < recency.len() implies !same_key(
                    #[trigger] recency[i],
                    key,
                    rules,
                ) by {
                    if i > 0 {
                        assert(recency[i] == rest[i - 1]);
                    }
                }
            },
        }
    }
}

/// By recency a repository that was opened stands before every one that was opened earlier or
/// never; those that never were stand by their names, without regard to letter case.
pub proof fn lemma_recent_repositories_come_first(
    entries: Seq<RepoEntryV>,
    recency: Seq<RecencyKeyV>,
    rules: PathRules,
    i: int,
    j: int,
    count: int,
)
    requires
        0 <= i < j < sorted_repos(entries, SortOrder::Recency, recency, rules).len(),
    ensures
        ({
            let sorted = sorted_repos(entries, SortOrder::Recency, recency, rules);
            &&& opened_within(recency, sorted[j], count, rules) ==> opened_within(
                recency,
                sorted[i],
                count,
                rules,
            )
            &&& !opened_within(recency, sorted[i], recency.len() as int, rules) ==> rank_text(
                lowercase_of(sorted[i].repo.name),
                lowercase_of(sorted[j].repo.name),
            ) != Rank::Greater
        }),
{
    let sorted = sorted_repos(entries, SortOrder::Recency, recency, rules);
    let places = lemma_sorted_repos(entries, SortOrder::Recency, recency, rules);
    let le = not_after(rank_repos(SortOrder::Recency, recency, rules));
    assert(in_order(sorted, le));
    assert(le(sorted[i], sorted[j]));
    let (a, b) = (
        RecencyKeyV::Repo { path: sorted[i].canonical_path },
        RecencyKeyV::Repo { path: sorted[j].canonical_path },
    );
    lemma_position_within(recency, a, rules);
    lemma_position_within(recency, b, rules);
    if opened_within(recency, sorted[j], count, rules) {
        let k = choose|k: int|
            0 <= k < count && k < recency.len() && same_key(#[trigger] recency[k], b, rules);
        let q = key_position(recency, b, rules)->0;
        assert(q <= k);
        let p = key_position(recency, a, rules)->0;
        assert(same_key(recency[p as int], a, rules));
        assert(opened_within(recency, sorted[i], count, rules));
    }
    if !opened_within(recency, sorted[i], recency.len() as int, rules) {
        if key_position(recency, a, rules) is Some {
            let p = key_position(recency, a, rules)->0;
            assert(same_key(recency[p as int], a, rules));
            assert(opened_within(recency, sorted[i], recency.len() as int, rules));
        }
    }
}

/// By name the list stands in the order of the names, without regard to letter case; either way
/// sorting keeps every row and adds none.
pub proof fn lemma_names_are_in_order(
    entries: Seq<RepoEntryV>,
    order: SortOrder,
    recency: Seq<RecencyKeyV>,
    rules: PathRules,
) -> (places: Seq<int>)
    ensures
        ({
            let sorted = sorted_repos(entries, order, recency, rules);
            &&& sorted.len() == entries.len()
            &&& places.len() == entries.len()
            &&& forall|i: int|
                0 <= i < sorted.len() ==> 0 <= #[trigger] places[i] < entries.len() && sorted[i]
                    == entries[places[i]]
            &&& forall|i: int, j: int|
                0 <= i < j < sorted.len() ==> (#[trigger] places[i]) != (#[trigger] places[j])
            &&& order == SortOrder::Alphabetical ==> forall|i: int, j: int|
                0 <= i < j < sorted.len() ==> rank_text(
                    lowercase_of((#[trigger] sorted[i]).repo.name),
                    lowercase_of((#[trigger] sorted[j]).repo.name),
                ) != Rank::Greater
        }),
{
    let sorted = sorted_repos(entries, order, recency, rules);
    let places = lemma_sorted_repos(entries, order, recency, rules);
    if order == SortOrder::Alphabetical {
        let le = not_after(rank_repos(order, recency, rules));
        assert forall|i: int, j: int| 0 <= i < j < sorted.len() implies rank_text(
            lowercase_of((#[trigger] sorted[i]).repo.name),
            lowercase_of((#[trigger] sorted[j]).repo.name),
        ) != Rank::Greater by {
            assert(le(sorted[i], sorted[j]));
        }
    }
    places
}

proof fn lemma_deepest_row(
    keys: Seq<Seq<u8>>,
    rows: Seq<(usize, i64)>,
    cwd: Seq<u8>,
    rules: PathRules,
)
    ensures
        match deepest_row(keys, rows, cwd, rules) {
            Some(row) => 0 <= row < rows.len() && within(cwd, keys[rows[row].0 as int], rules)
                && forall|i: int|
                0 <= i < rows.len() && within(cwd, keys[(#[trigger] rows[i]).0 as int], rules)
                    ==> parts(keys[rows[i].0 as int], rules).len() <= parts(
                    keys[rows[row].0 as int],
                    rules,
                ).len(),
            None => forall|i: int|
                0 <= i < rows.len() ==> !within(cwd, keys[(#[trigger] rows[i]).0 as int], rules),
        },
    decreases rows.len(),
{
    if rows.len() > 0 {
        let before = rows.drop_last();
        lemma_deepest_row(keys, before, cwd, rules);
        assert forall|i: int| 0 <= i < before.len() implies #[trigger] rows[i] == before[i] by {}
    }
}

proof fn lemma_first_elsewhere(
    keys: Seq<Seq<u8>>,
    rows: Seq<(usize, i64)>,
    cwd: Seq<u8>,
    rules: PathRules,
)
    ensures
        match first_elsewhere(keys, rows, cwd, rules) {
            Some(row) => 0 <= row < rows.len() && !within(cwd, keys[rows[row].0 as int], rules)
                && forall|i: int|
                0 <= i < row ==> within(cwd, keys[(#[trigger] rows[i]).0 as int], rules),
            None => forall|i: int|
                0 <= i < rows.len() ==> within(cwd, keys[(#[trigger] rows[i]).0 as int], rules),
        },
    decreases rows.len(),
{
    if rows.len() > 0 {
        let before = rows.drop_last();
        lemma_first_elsewhere(keys, before, cwd, rules);
        assert forall|i: int| 0 <= i < before.len() implies #[trigger] rows[i] == before[i] by {}
    }
}

/// As long as nobody has moved the selection, the list by name highlights the innermost
/// repository that the user is in, and the list by recency the first one that the user is not
/// in. Once it was moved, or where it is not known where the user is, it stays.
pub proof fn lemma_default_selection_follows_the_user(
    view: RepoViewV,
    order: SortOrder,
    cwd: Seq<u8>,
)
    requires
        view.list.filtered.len() <= usize::MAX,
        forall|i: int|
            0 <= i < view.list.filtered.len() ==> (#[trigger] view.list.filtered[i]).0
                < view.entries.len(),
    ensures
        ({
            let after = view.on_default(order);
            let at = |row: int| view.entries[view.list.filtered[row].0 as int].repo.path;
            let inside = |row: int|
                0 <= row < view.list.filtered.len() && within(cwd, at(row), view.path_rules);
            &&& view.selection_touched || view.current_cwd is None ==> after == view
            &&& after.entries == view.entries
            &&& after.list.filtered == view.list.filtered
            &&& after.list.input == view.list.input
            &&& view.current_cwd == Some(cwd) && !view.selection_touched && order
                == SortOrder::Alphabetical ==> if exists|row: int| #[trigger] inside(row) {
                after.list.selected matches Some(row) && inside(row as int) && forall|other: int|
                    #[trigger] inside(other) ==> parts(at(other), view.path_rules).len() <= parts(
                        at(row as int),
                        view.path_rules,
                    ).len()
            } else {
                after == view
            }
            &&& view.current_cwd == Some(cwd) && !view.selection_touched && order
                == SortOrder::Recency ==> if exists|row: int|
                0 <= row < view.list.filtered.len() && !#[trigger] inside(row) {
                after.list.selected matches Some(row) && row < view.list.filtered.len() && !inside(
                    row as int,
                ) && forall|other: int| 0 <= other < row ==> #[trigger] inside(other)
            } else {
                after == view
            }
        }),
{
    let keys = view.keys();
    let rows = view.list.filtered;
    let rules = view.path_rules;
    lemma_deepest_row(keys, rows, cwd, rules);
    lemma_first_elsewhere(keys, rows, cwd, rules);
    let at = |row: int| view.entries[view.list.filtered[row].0 as int].repo.path;
    let inside = |row: int|
        0 <= row < view.list.filtered.len() && within(cwd, at(row), view.path_rules);
    assert forall|row: int| 0 <= row < rows.len() implies #[trigger] inside(row) == within(
        cwd,
        keys[rows[row].0 as int],
        rules,
    ) by {
        assert(rows[row].0 < view.entries.len());
        assert(keys[rows[row].0 as int] == at(row));
    }
    assert forall|row: int| 0 <= row < rows.len() implies keys[(#[trigger] rows[row]).0 as int]
        == at(row) by {}
    match deepest_row(keys, rows, cwd, rules) {
        Some(row) => {
            assert(inside(row));
            assert forall|other: int| #[trigger] inside(other) implies parts(at(other), rules).len()
                <= parts(at(row), rules).len() by {
                assert(within(cwd, keys[rows[other].0 as int], rules));
            }
        },
        None => {
            assert forall|row: int| !#[trigger] inside(row) by {
                if 0 <= row < rows.len() {
                    assert(!within(cwd, keys[rows[row].0 as int], rules));
                }
            }
        },
    }
    match first_elsewhere(keys, rows, cwd, rules) {
        Some(row) => {
            assert(!inside(row));
            assert forall|other: int| 0 <= other < row implies #[trigger] inside(other) by {
                assert(within(cwd, keys[rows[other].0 as int], rules));
            }
        },
        None => {
            assert forall|row: int| 0 <= row < rows.len() implies #[trigger] inside(row) by {
                assert(within(cwd, keys[rows[row].0 as int], rules));
            }
        },
    }
}

/// A search among the repositories asks about all of them, each under its path and by its name
/// and what tells it apart from others of its name, for what is typed; only the answer to the
/// latest search counts. With nothing typed no filter is asked.
pub proof fn lemma_repositories_are_searched_by_name(
    view: RepoViewV,
    preserve: bool,
    order: SortOrder,
    recency: Seq<RecencyKeyV>,
)
    ensures
        ({
            let (after, request) = view.refiltered(preserve, order, recency);
            &&& request is Some <==> view.list.input.text.len() > 0
            &&& request matches Some(asked) ==> {
                &&& asked.target == FilterTarget::Repos
                &&& asked.query == view.list.input.text
                &&& asked.generation == after.filter_generation
                &&& after.filter_generation != view.filter_generation
                &&& after.entries == view.entries
                &&& after.list == view.list
                &&& asked.items.len() == view.entries.len()
                &&& forall|i: int|
                    0 <= i < view.entries.len() ==> (#[trigger] asked.items[i]).key
                        == FilterKeyV::Repo(view.entries[i].repo.path) && holds(
                        asked.items[i].text,
                        view.entries[i].repo.name,
                    ) && (view.entries[i].disambiguator matches Some(place) ==> holds(
                        asked.items[i].text,
                        place,
                    ))
            }
        }),
{
    let (after, request) = view.refiltered(preserve, order, recency);
    let none = Seq::<char>::empty();
    if request is Some {
        assert forall|i: int| 0 <= i < view.entries.len() implies (
        #[trigger] request->0.items[i]).key == FilterKeyV::Repo(view.entries[i].repo.path) && holds(
            request->0.items[i].text,
            view.entries[i].repo.name,
        ) && (view.entries[i].disambiguator matches Some(place) ==> holds(
            request->0.items[i].text,
            place,
        )) by {
            let entry = view.entries[i];
            let text = entry.display();
            match entry.disambiguator {
                Some(place) => {
                    lemma_holds_middle(none, entry.repo.name, " ("@ + place + ")"@);
                    assert(none + entry.repo.name + (" ("@ + place + ")"@) =~= text);
                    lemma_holds_middle(entry.repo.name + " ("@, place, ")"@);
                },
                None => {
                    lemma_holds_middle(none, entry.repo.name, none);
                    assert(none + entry.repo.name + none =~= text);
                },
            }
        }
    }
}

/// The end of the search is shown, and repositories of one name are told apart; a failure to
/// open brings the list back and is told; an answer to an earlier search is passed by.
pub proof fn lemma_events_of_the_repository_list(
    event: AppEvent,
    state: AppStateV,
    changes: TickChangesV,
)
    ensures
        event is ScanComplete ==> (after_event(event, state, changes) matches Some(
            (after, changed),
        ) && !after.repo_view.loading && changed.collision_pass && after.repo_view.entries
            == state.repo_view.entries && after.mode == state.mode),
        event matches AppEvent::RepoOpenFailed(message) ==> if state.mode matches ModeV::Loading {
            branch: None,
            ..
        } {
            after_event(event, state, changes) matches Some((after, _)) && after.mode
                == ModeV::RepoSelect && after.toasts == state.told(
                ToastKind::Error,
                message@,
            ).toasts && after.repo_view == state.repo_view
        } else {
            after_event(event, state, changes) is None
        },
        event matches AppEvent::FilterCompleted { target, generation, .. } ==> (after_event(
            event,
            state,
            changes,
        ) is Some <==> target == FilterTarget::Repos && generation
            == state.repo_view.filter_generation),
        event matches AppEvent::ReposFound { repo, canonical_path } ==> (after_event(
            event,
            state,
            changes,
        ) matches Some((after, changed)) && after.repo_view == state.repo_view.with_repo(
            repo.deep_view(),
            canonical_path@,
        ) && (after.repo_view.entries.len() > state.repo_view.entries.len()
            ==> changed.repos_changed)),
{
}

} // verus!
