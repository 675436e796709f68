//! The list of repositories and folders.

use crate::collisions::{checked_disambiguators, folds_case, is_case_folded, lemma_one_label, places};
use crate::config::SortOrder;
use crate::effects::{Effect, EffectV, FilterItem, FilterItemV, FilterRequest, FilterRequestV, TickChanges, TickChangesV};
use crate::event::{AppEvent, FilterKey, FilterKeyV, FilterTarget};
use crate::git::scan::{contains_path, has_path};
use crate::herdr::{PaneInfo, PaneInfoV, WorkspaceInfo, WorkspaceInfoV};
use crate::state::{AppState, AppStateV, Mode, ModeV};
use crate::toasts::ToastKind;
use crate::git::{Repo, RepoV, Worktree, WorktreeV};
use crate::input::{all_rows, every_row, Edit, SearchableList, SearchableListV};
use crate::order::{by_key, chained, compare_text, consistent, in_order, lemma_by_key_consistent, lemma_chained_consistent, lemma_consistent_total, lemma_rank_int_consistent, lemma_rank_text_consistent, lemma_sort_map, lemma_sorted_contains, lemma_stable_sort, lemma_stable_sorted_len, not_after, rank_int, rank_text, rank_u64, stable_rearrangement, stable_sort, stable_sorted, Rank};
use crate::path::{compare_paths, components, contains_place, copy_paths, has_place, lemma_rank_paths_consistent, parts, rank_paths, same_path, starts_with, within, PathBuf, PathRules};
use crate::recency::{key_position, RecencyKeyV, RecencyStore};
use crate::rows::{advance, apply_matches, find_first, find_position, first_place, keys_shown, last_place, lemma_first_place, lemma_last_place, lemma_rows_contain, lemma_rows_valid, lemma_shown_contains, lemma_shown_len, look_up_rows, next_generation, or_first, position_of, row_keys, rows_of, rows_valid, selected_index, selected_item, selected_key, shown_keys, with_matches};
use crate::text::{concat, concat3, copy_optional_text, lowercase, lowercase_of};
use vstd::prelude::*;
use vstd::string::*;
use vstd::utf8::encode_utf8;

verus! {

/// One row of the list. The canonical path tells repositories apart that are reached by
/// different paths.
#[derive(Debug, PartialEq, Eq)]
pub struct RepoEntry {
    pub repo: Repo,
    pub canonical_path: PathBuf,
    pub disambiguator: Option<String>,
    pub is_open: bool,
}

#[verifier::ext_equal]
pub struct RepoEntryV {
    pub repo: RepoV,
    pub canonical_path: Seq<u8>,
    pub disambiguator: Option<Seq<char>>,
    pub is_open: bool,
}

impl DeepView for RepoEntry {
    type V = RepoEntryV;

    open spec fn deep_view(&self) -> RepoEntryV {
        RepoEntryV {
            repo: self.repo.deep_view(),
            canonical_path: self.canonical_path@,
            disambiguator: self.disambiguator.deep_view(),
            is_open: self.is_open,
        }
    }
}

impl Clone for RepoEntry {
    fn clone(&self) -> (entry: Self)
        ensures
            entry.deep_view() == self.deep_view(),
    {
        RepoEntry {
            repo: self.repo.clone(),
            canonical_path: self.canonical_path.clone(),
            disambiguator: copy_optional_text(&self.disambiguator),
            is_open: self.is_open,
        }
    }
}

impl RepoEntryV {
    /// The name, with what tells it apart in brackets behind it.
    pub open spec fn display(self) -> Seq<char> {
        match self.disambiguator {
            Some(suffix) => self.repo.name + " ("@ + suffix + ")"@,
            None => self.repo.name,
        }
    }
}

impl RepoEntry {
    /// A row whose path is taken as canonical.
    pub fn new(repo: Repo) -> (entry: RepoEntry)
        ensures
            entry.deep_view() == (RepoEntryV {
                repo: repo.deep_view(),
                canonical_path: repo.path@,
                disambiguator: None,
                is_open: false,
            }),
    {
        let canonical_path = repo.path.clone();
        RepoEntry { repo, canonical_path, disambiguator: None, is_open: false }
    }

    pub fn display_name(&self) -> (text: String)
        ensures
            text@ == self.deep_view().display(),
    {
        match &self.disambiguator {
            Some(suffix) => {
                let head = concat3(self.repo.name.as_str(), " (", suffix.as_str());
                concat(head.as_str(), ")")
            },
            None => self.repo.name.clone(),
        }
    }
}

#[derive(Debug, PartialEq, Eq)]
pub struct RepoViewState {
    pub entries: Vec<RepoEntry>,
    pub list: SearchableList,
    pub loading: bool,
    /// Whether the selection was moved by hand.
    pub selection_touched: bool,
    pub seen_paths: Vec<PathBuf>,
    /// The canonical roots of the repositories that are open in a workspace.
    pub open_roots: Vec<PathBuf>,
    /// The canonical directories of the panes.
    pub open_folders: Vec<PathBuf>,
    pub current_cwd: Option<PathBuf>,
    pub filter_generation: u64,
    pub path_rules: PathRules,
}

#[verifier::ext_equal]
pub struct RepoViewV {
    pub entries: Seq<RepoEntryV>,
    pub list: SearchableListV,
    pub loading: bool,
    pub selection_touched: bool,
    pub seen_paths: Seq<Seq<u8>>,
    pub open_roots: Seq<Seq<u8>>,
    pub open_folders: Seq<Seq<u8>>,
    pub current_cwd: Option<Seq<u8>>,
    pub filter_generation: u64,
    pub path_rules: PathRules,
}

impl DeepView for RepoViewState {
    type V = RepoViewV;

    open spec fn deep_view(&self) -> RepoViewV {
        RepoViewV {
            entries: self.entries.deep_view(),
            list: self.list.deep_view(),
            loading: self.loading,
            selection_touched: self.selection_touched,
            seen_paths: self.seen_paths.deep_view(),
            open_roots: self.open_roots.deep_view(),
            open_folders: self.open_folders.deep_view(),
            current_cwd: self.current_cwd.deep_view(),
            filter_generation: self.filter_generation,
            path_rules: self.path_rules,
        }
    }
}

impl RepoViewV {
    /// Nothing found yet.
    pub open spec fn fresh(current_cwd: Option<Seq<u8>>) -> RepoViewV {
        RepoViewV {
            entries: Seq::empty(),
            list: SearchableListV::fresh(0),
            loading: true,
            selection_touched: false,
            seen_paths: Seq::empty(),
            open_roots: Seq::empty(),
            open_folders: Seq::empty(),
            current_cwd,
            filter_generation: 0,
            path_rules: PathRules::Unix,
        }
    }
}

impl RepoViewState {
    pub fn new(current_cwd: Option<PathBuf>) -> (view: RepoViewState)
        ensures
            view.deep_view() == RepoViewV::fresh(current_cwd.deep_view()),
    {
        let view = RepoViewState {
            entries: Vec::new(),
            list: SearchableList::new(0),
            loading: true,
            selection_touched: false,
            seen_paths: Vec::new(),
            open_roots: Vec::new(),
            open_folders: Vec::new(),
            current_cwd,
            filter_generation: 0,
            path_rules: PathRules::Unix,
        };
        assert(view.deep_view() =~= RepoViewV::fresh(current_cwd.deep_view()));
        view
    }
}

/// The paths of the rows.
pub open spec fn paths_of(entries: Seq<RepoEntryV>) -> Seq<Seq<u8>> {
    entries.map_values(|entry: RepoEntryV| entry.repo.path)
}

/// Order by the names without letter case, which are given, then by name, then by path.
pub open spec fn rank_folded(
    a: RepoEntryV,
    folded_a: Seq<char>,
    b: RepoEntryV,
    folded_b: Seq<char>,
    rules: PathRules,
) -> Rank {
    rank_text(folded_a, folded_b).or_else_spec(
        rank_text(a.repo.name, b.repo.name).or_else_spec(rank_paths(a.repo.path, b.repo.path, rules)),
    )
}

/// Order by name without letter case, then by name, then by path.
pub open spec fn rank_names(rules: PathRules) -> spec_fn(RepoEntryV, RepoEntryV) -> Rank {
    |a: RepoEntryV, b: RepoEntryV|
        rank_folded(a, lowercase_of(a.repo.name), b, lowercase_of(b.repo.name), rules)
}

/// How many things were opened later than a repository; what was never opened counts as
/// opened before everything else.
pub open spec fn age(recency: Seq<RecencyKeyV>, entry: RepoEntryV, rules: PathRules) -> int {
    match key_position(recency, RecencyKeyV::Repo { path: entry.canonical_path }, rules) {
        Some(position) => position as int,
        None => recency.len() as int,
    }
}

/// Order of the list: by name, or what was opened last first and by name where that ties.
pub open spec fn rank_repos(order: SortOrder, recency: Seq<RecencyKeyV>, rules: PathRules) -> spec_fn(
    RepoEntryV,
    RepoEntryV,
) -> Rank {
    match order {
        SortOrder::Alphabetical => rank_names(rules),
        SortOrder::Recency => |a: RepoEntryV, b: RepoEntryV|
            rank_int(age(recency, a, rules), age(recency, b, rules)).or_else_spec(rank_names(rules)(a, b)),
    }
}

pub open spec fn sorted_repos(
    entries: Seq<RepoEntryV>,
    order: SortOrder,
    recency: Seq<RecencyKeyV>,
    rules: PathRules,
) -> Seq<RepoEntryV> {
    stable_sorted(entries, not_after(rank_repos(order, recency, rules)))
}

proof fn lemma_rank_names_consistent(rules: PathRules)
    ensures
        consistent(rank_names(rules)),
{
    lemma_rank_text_consistent();
    lemma_rank_paths_consistent(rules);
    let text = |a: Seq<char>, b: Seq<char>| rank_text(a, b);
    let path = |a: Seq<u8>, b: Seq<u8>| rank_paths(a, b, rules);
    let k1 = |e: RepoEntryV| lowercase_of(e.repo.name);
    let k2 = |e: RepoEntryV| e.repo.name;
    let k3 = |e: RepoEntryV| e.repo.path;
    lemma_by_key_consistent(text, k1);
    lemma_by_key_consistent(text, k2);
    lemma_by_key_consistent(path, k3);
    let c2 = chained(by_key(text, k2), by_key(path, k3));
    lemma_chained_consistent(by_key(text, k2), by_key(path, k3));
    let c1 = chained(by_key(text, k1), c2);
    lemma_chained_consistent(by_key(text, k1), c2);
    assert(c1 =~= rank_names(rules));
}

proof fn lemma_rank_repos_consistent(order: SortOrder, recency: Seq<RecencyKeyV>, rules: PathRules)
    ensures
        consistent(rank_repos(order, recency, rules)),
{
    lemma_rank_names_consistent(rules);
    if order == SortOrder::Recency {
        lemma_rank_int_consistent();
        let number = |a: int, b: int| rank_int(a, b);
        let key = |e: RepoEntryV| age(recency, e, rules);
        lemma_by_key_consistent(number, key);
        let both = chained(by_key(number, key), rank_names(rules));
        lemma_chained_consistent(by_key(number, key), rank_names(rules));
        assert(both =~= rank_repos(order, recency, rules));
    }
}

/// Sorting the list rearranges its rows, brings every pair into order and leaves rows that
/// tie as they stood.
pub proof fn lemma_sorted_repos(
    entries: Seq<RepoEntryV>,
    order: SortOrder,
    recency: Seq<RecencyKeyV>,
    rules: PathRules,
) -> (places: Seq<int>)
    ensures
        in_order(sorted_repos(entries, order, recency, rules), not_after(rank_repos(order, recency, rules))),
        stable_rearrangement(
            entries,
            sorted_repos(entries, order, recency, rules),
            not_after(rank_repos(order, recency, rules)),
            places,
        ),
{
    lemma_rank_repos_consistent(order, recency, rules);
    lemma_consistent_total(rank_repos(order, recency, rules));
    lemma_stable_sort(entries, not_after(rank_repos(order, recency, rules)))
}

/// By name, nothing that was opened changes the order.
pub proof fn lemma_alphabetical_ignores_recency(
    entries: Seq<RepoEntryV>,
    first: Seq<RecencyKeyV>,
    second: Seq<RecencyKeyV>,
    rules: PathRules,
)
    ensures
        sorted_repos(entries, SortOrder::Alphabetical, first, rules) == sorted_repos(
            entries,
            SortOrder::Alphabetical,
            second,
            rules,
        ),
{
}

fn compare_names(left: &RepoEntry, right: &RepoEntry, rules: PathRules) -> (result: Rank)
    ensures
        result == rank_names(rules)(left.deep_view(), right.deep_view()),
{
    let l = lowercase(left.repo.name.as_str());
    let r = lowercase(right.repo.name.as_str());
    compare_folded(left, l.as_str(), right, r.as_str(), rules)
}

/// Compares two rows whose names are given without letter case.
pub fn compare_folded(left: &RepoEntry, folded_left: &str, right: &RepoEntry, folded_right: &str, rules: PathRules) -> (
    result: Rank)
    ensures
        result == rank_folded(left.deep_view(), folded_left@, right.deep_view(), folded_right@, rules),
{
    let by_folded = compare_text(folded_left, folded_right);
    let by_name = compare_text(left.repo.name.as_str(), right.repo.name.as_str());
    let by_path = compare_paths(&left.repo.path, &right.repo.path, rules);
    by_folded.or_else(by_name.or_else(by_path))
}

fn age_of(recency: &RecencyStore, entry: &RepoEntry, rules: PathRules) -> (position: u64)
    ensures
        position as int == age(recency.deep_view(), entry.deep_view(), rules),
{
    match recency.repo_rank(&entry.canonical_path, rules) {
        Some(position) => position as u64,
        None => recency.entries.len() as u64,
    }
}

fn compare_repos(
    left: &RepoEntry,
    right: &RepoEntry,
    order: SortOrder,
    recency: &RecencyStore,
    rules: PathRules,
) -> (result: Rank)
    ensures
        result == rank_repos(order, recency.deep_view(), rules)(left.deep_view(), right.deep_view()),
{
    let by_name = compare_names(left, right, rules);
    match order {
        SortOrder::Alphabetical => by_name,
        SortOrder::Recency => rank_u64(age_of(recency, left, rules), age_of(recency, right, rules)).or_else(
            by_name,
        ),
    }
}

fn sort_repos(entries: Vec<RepoEntry>, sort_order: SortOrder, recency: &RecencyStore, rules: PathRules) -> (sorted: Vec<
    RepoEntry,
>)
    ensures
        sorted.deep_view() == sorted_repos(
            entries.deep_view(),
            sort_order,
            recency.deep_view(),
            rules,
        ),
{
    let ghost rank = rank_repos(sort_order, recency.deep_view(), rules);
    let ghost order = |a: RepoEntry, b: RepoEntry| not_after(rank)(a.deep_view(), b.deep_view());
    let ghost before = entries@;
    let ghost image = |e: RepoEntry| e.deep_view();
    let le = |a: &RepoEntry, b: &RepoEntry| -> (answer: bool)
        ensures
            answer == order(*a, *b),
    {
        let step = compare_repos(a, b, sort_order, recency, rules);
        step != Rank::Greater
    };
    let sorted = stable_sort(entries, le, Ghost(order));
    proof {
        lemma_sort_map(before, order, image, not_after(rank));
        assert(before.map_values(image) =~= entries.deep_view());
        assert(sorted@.map_values(image) =~= sorted.deep_view());
    }
    sorted
}

/// The deepest repository among the rows that holds `cwd`, the last one of equally deep ones.
pub open spec fn deepest_row(
    keys: Seq<Seq<u8>>,
    rows: Seq<(usize, i64)>,
    cwd: Seq<u8>,
    rules: PathRules,
) -> Option<int>
    decreases rows.len(),
{
    if rows.len() == 0 {
        None
    } else {
        let before = deepest_row(keys, rows.drop_last(), cwd, rules);
        let path = keys[rows.last().0 as int];
        if within(cwd, path, rules) && (before is None || parts(keys[rows[before->0].0 as int], rules).len()
            <= parts(path, rules).len()) {
            Some(rows.len() - 1)
        } else {
            before
        }
    }
}

/// The first row that does not hold `cwd`.
pub open spec fn first_elsewhere(
    keys: Seq<Seq<u8>>,
    rows: Seq<(usize, i64)>,
    cwd: Seq<u8>,
    rules: PathRules,
) -> Option<int>
    decreases rows.len(),
{
    if rows.len() == 0 {
        None
    } else {
        match first_elsewhere(keys, rows.drop_last(), cwd, rules) {
            Some(position) => Some(position),
            None => if within(cwd, keys[rows.last().0 as int], rules) {
                None
            } else {
                Some(rows.len() - 1)
            },
        }
    }
}

impl RepoViewV {
    pub open spec fn keys(self) -> Seq<Seq<u8>> {
        paths_of(self.entries)
    }

    pub open spec fn selected(self) -> Option<RepoEntryV> {
        match selected_index(self.list, self.entries.len()) {
            Some(index) => Some(self.entries[index]),
            None => None,
        }
    }

    /// The list sorted. What was selected stays selected; rows that a search shows stay shown.
    pub open spec fn resorted(self, order: SortOrder, recency: Seq<RecencyKeyV>) -> RepoViewV {
        let rules = self.path_rules;
        let entries = sorted_repos(self.entries, order, recency, self.path_rules);
        let keys = paths_of(entries);
        let selected = selected_key(self.list, self.keys());
        if self.list.input.text.len() == 0 {
            RepoViewV {
                entries,
                list: SearchableListV {
                    filtered: all_rows(entries.len()),
                    selected: or_first(
                        match selected {
                            Some(path) => match first_place::<PathBuf>(keys, path, rules) {
                                Some(place) => Some(place as usize),
                                None => None,
                            },
                            None => None,
                        },
                        entries.len(),
                    ),
                    ..self.list
                },
                ..self
            }
        } else {
            let rows = rows_of::<PathBuf>(keys, shown_keys(self.keys(), self.list.filtered), rules);
            RepoViewV {
                entries,
                list: SearchableListV {
                    filtered: rows,
                    selected: position_of::<PathBuf>(keys, rows, selected, rules),
                    ..self.list
                },
                ..self
            }
        }
    }

    pub open spec fn selecting(self, position: Option<int>) -> RepoViewV {
        match position {
            Some(position) => RepoViewV {
                list: SearchableListV { selected: Some(position as usize), ..self.list },
                ..self
            },
            None => self,
        }
    }

    /// The repository where the picker was started selected, unless the selection was moved.
    pub open spec fn on_current(self) -> RepoViewV {
        match self.current_cwd {
            Some(cwd) => if self.selection_touched {
                self
            } else {
                self.selecting(
                    deepest_row(self.keys(), self.list.filtered, cwd, self.path_rules),
                )
            },
            None => self,
        }
    }

    /// The selection that the list starts with. In the order of use it is the first
    /// repository other than the one where the picker was started, so that opening it
    /// switches back.
    pub open spec fn on_default(self, order: SortOrder) -> RepoViewV {
        match order {
            SortOrder::Alphabetical => self.on_current(),
            SortOrder::Recency => match self.current_cwd {
                Some(cwd) => if self.selection_touched {
                    self
                } else {
                    self.selecting(
                        first_elsewhere(self.keys(), self.list.filtered, cwd, self.path_rules),
                    )
                },
                None => self,
            },
        }
    }

    pub open spec fn list_valid(self) -> bool {
        rows_valid(self.list.filtered, self.entries.len())
    }
}

fn key_list(entries: &Vec<RepoEntry>) -> (keys: Vec<PathBuf>)
    ensures
        keys.deep_view() == paths_of(entries.deep_view()),
{
    let mut keys: Vec<PathBuf> = Vec::new();
    let mut i: usize = 0;
    while i < entries.len()
        invariant
            i <= entries.len(),
            keys@.len() == i,
            forall|k: int| 0 <= k < i ==> (#[trigger] keys@[k])@ == entries@[k].repo.path@,
        decreases entries.len() - i,
    {
        keys.push(entries[i].repo.path.clone());
        i = i + 1;
    }
    assert(keys.deep_view() =~= paths_of(entries.deep_view()));
    keys
}

#[verifier::loop_isolation(false)]
fn find_deepest(
    keys: &Vec<PathBuf>,
    rows: &Vec<(usize, i64)>,
    cwd: &PathBuf,
    rules: PathRules,
) -> (position: Option<usize>)
    requires
        rows_valid(rows@, keys@.len()),
    ensures
        match deepest_row(keys.deep_view(), rows@, cwd@, rules) {
            Some(at) => position is Some && position->0 as int == at && at < rows@.len(),
            None => position is None,
        },
{
    let ghost all = keys.deep_view();
    let mut best: Option<usize> = None;
    let mut depth: usize = 0;
    let mut i: usize = 0;
    while i < rows.len()
        invariant
            i <= rows.len(),
            match best {
                Some(at) => at < i && deepest_row(all, rows@.take(i as int), cwd@, rules) == Some(
                    at as int,
                ) && depth == parts(all[rows@[at as int].0 as int], rules).len(),
                None => deepest_row(all, rows@.take(i as int), cwd@, rules) is None,
            },
        decreases rows.len() - i,
    {
        proof {
            assert(rows@.take(i + 1).drop_last() =~= rows@.take(i as int));
            assert(rows@.take(i + 1).last() == rows@[i as int]);
            assert(rows@[i as int].0 < keys@.len());
            assert(all[rows@[i as int].0 as int] == keys@[rows@[i as int].0 as int]@);
            match best {
                Some(at) => {
                    assert(rows@.take(i as int)[at as int] == rows@[at as int]);
                    assert(rows@.take(i + 1)[at as int] == rows@[at as int]);
                },
                None => {},
            }
        }
        let path = &keys[rows[i].0];
        if starts_with(cwd, path, rules) {
            let deep = components(path, rules).len();
            if best.is_none() || depth <= deep {
                best = Some(i);
                depth = deep;
            }
        }
        i = i + 1;
    }
    assert(rows@.take(rows@.len() as int) =~= rows@);
    best
}

proof fn lemma_first_elsewhere_prefix(
    keys: Seq<Seq<u8>>,
    rows: Seq<(usize, i64)>,
    cwd: Seq<u8>,
    count: int,
    rules: PathRules,
)
    requires
        0 <= count <= rows.len(),
        first_elsewhere(keys, rows.take(count), cwd, rules) is Some,
    ensures
        first_elsewhere(keys, rows, cwd, rules) == first_elsewhere(
            keys,
            rows.take(count),
            cwd,
            rules,
        ),
    decreases rows.len(),
{
    if count == rows.len() {
        assert(rows.take(count) =~= rows);
    } else {
        assert(rows.drop_last().take(count) =~= rows.take(count));
        lemma_first_elsewhere_prefix(keys, rows.drop_last(), cwd, count, rules);
    }
}

#[verifier::loop_isolation(false)]
fn find_elsewhere(
    keys: &Vec<PathBuf>,
    rows: &Vec<(usize, i64)>,
    cwd: &PathBuf,
    rules: PathRules,
) -> (position: Option<usize>)
    requires
        rows_valid(rows@, keys@.len()),
    ensures
        match first_elsewhere(keys.deep_view(), rows@, cwd@, rules) {
            Some(at) => position is Some && position->0 as int == at && at < rows@.len(),
            None => position is None,
        },
{
    let ghost all = keys.deep_view();
    let mut i: usize = 0;
    while i < rows.len()
        invariant
            i <= rows.len(),
            first_elsewhere(all, rows@.take(i as int), cwd@, rules) is None,
        decreases rows.len() - i,
    {
        proof {
            assert(rows@.take(i + 1).drop_last() =~= rows@.take(i as int));
            assert(rows@.take(i + 1).last() == rows@[i as int]);
            assert(rows@[i as int].0 < keys@.len());
            assert(all[rows@[i as int].0 as int] == keys@[rows@[i as int].0 as int]@);
        }
        if !starts_with(cwd, &keys[rows[i].0], rules) {
            proof {
                lemma_first_elsewhere_prefix(all, rows@, cwd@, i + 1, rules);
            }
            return Some(i);
        }
        i = i + 1;
    }
    assert(rows@.take(rows@.len() as int) =~= rows@);
    None
}

impl RepoViewState {
    /// The selected row.
    pub fn selected(&self) -> (entry: Option<&RepoEntry>)
        ensures
            entry.deep_view() == self.deep_view().selected(),
    {
        match selected_item(&self.list, self.entries.len()) {
            Some(index) => Some(&self.entries[index]),
            None => None,
        }
    }

    fn selected_path(&self) -> (path: Option<PathBuf>)
        ensures
            path.deep_view() == selected_key(self.deep_view().list, self.deep_view().keys()),
    {
        match selected_item(&self.list, self.entries.len()) {
            Some(index) => Some(self.entries[index].repo.path.clone()),
            None => None,
        }
    }

    /// Sorts the list and keeps what is shown and selected.
    pub fn canonical_sort(&mut self, order: SortOrder, recency: &RecencyStore)
        ensures
            final(self).deep_view() == old(self).deep_view().resorted(order, recency.deep_view()),
            final(self).deep_view().list_valid(),
    {
        let rules = self.path_rules;
        let ghost start = self.deep_view();
        let selected = self.selected_path();
        let before = key_list(&self.entries);
        let shown = keys_shown(&before, &self.list.filtered);
        let mut entries: Vec<RepoEntry> = Vec::new();
        std::mem::swap(&mut entries, &mut self.entries);
        self.entries = sort_repos(entries, order, recency, self.path_rules);
        let keys = key_list(&self.entries);
        assert(keys@.len() == self.entries@.len()) by {
            assert(keys.deep_view().len() == keys@.len());
        }
        if self.list.input.text.as_str().is_empty() {
            self.list.filtered = every_row(self.entries.len());
            let place = match &selected {
                Some(path) => find_first(&keys, path, rules),
                None => None,
            };
            self.list.selected = match place {
                Some(at) => Some(at),
                None => if self.entries.len() > 0 {
                    Some(0)
                } else {
                    None
                },
            };
        } else {
            self.list.filtered = look_up_rows(&keys, &shown, rules);
            self.list.selected = find_position(&keys, &self.list.filtered, selected.as_ref(), rules);
        }
        assert(self.deep_view() =~= start.resorted(order, recency.deep_view()));
    }

    /// Selects the repository where the picker was started, unless the selection was moved.
    pub fn apply_current_selection(&mut self)
        requires
            old(self).deep_view().list_valid(),
        ensures
            final(self).deep_view() == old(self).deep_view().on_current(),
            final(self).deep_view().list_valid(),
    {
        if self.selection_touched {
            return;
        }
        let keys = key_list(&self.entries);
        assert(keys.deep_view().len() == keys@.len());
        let best = match &self.current_cwd {
            Some(cwd) => find_deepest(&keys, &self.list.filtered, cwd, self.path_rules),
            None => None,
        };
        if best.is_some() {
            self.list.selected = best;
        }
    }

    /// Selects what the list starts with.
    pub fn apply_default_selection(&mut self, order: SortOrder)
        requires
            old(self).deep_view().list_valid(),
        ensures
            final(self).deep_view() == old(self).deep_view().on_default(order),
            final(self).deep_view().list_valid(),
    {
        match order {
            SortOrder::Alphabetical => self.apply_current_selection(),
            SortOrder::Recency => {
                if self.selection_touched {
                    return;
                }
                let keys = key_list(&self.entries);
                assert(keys.deep_view().len() == keys@.len());
                let other = match &self.current_cwd {
                    Some(cwd) => find_elsewhere(
                        &keys,
                        &self.list.filtered,
                        cwd,
                        self.path_rules,
                    ),
                    None => None,
                };
                if other.is_some() {
                    self.list.selected = other;
                }
            },
        }
    }
}

/// Sorting keeps what is selected.
pub proof fn lemma_sort_keeps_selection(
    view: RepoViewV,
    order: SortOrder,
    recency: Seq<RecencyKeyV>,
)
    requires
        view.entries.len() <= usize::MAX,
        view.list.filtered.len() <= usize::MAX,
        view.selected() is Some,
    ensures
        view.resorted(order, recency).selected() is Some,
        same_path(
            view.resorted(order, recency).selected()->0.repo.path,
            view.selected()->0.repo.path,
            view.path_rules,
        ),
{
    let rules = view.path_rules;
    let le = not_after(rank_repos(order, recency, view.path_rules));
    let entries = sorted_repos(view.entries, order, recency, view.path_rules);
    let keys = paths_of(entries);
    let old_keys = view.keys();
    let index = selected_index(view.list, view.entries.len())->0;
    let path = view.entries[index].repo.path;
    lemma_sorted_contains(view.entries, le, index);
    lemma_stable_sorted_len(view.entries, le);
    let at = choose|i: int| 0 <= i < entries.len() && entries[i] == view.entries[index];
    assert(keys[at] == path);
    assert(selected_key(view.list, old_keys) == Some(path));
    if view.list.input.text.len() == 0 {
        lemma_first_place::<PathBuf>(keys, path, rules);
    } else {
        let shown = shown_keys(old_keys, view.list.filtered);
        let rows = rows_of::<PathBuf>(keys, shown, rules);
        let row = view.list.selected->0 as int;
        lemma_shown_contains(old_keys, view.list.filtered, row);
        let pair = (path, view.list.filtered[row].1);
        let place = choose|i: int| 0 <= i < shown.len() && shown[i] == pair;
        lemma_last_place::<PathBuf>(keys, path, rules);
        lemma_rows_contain::<PathBuf>(keys, shown, place, rules);
        lemma_rows_valid::<PathBuf>(keys, shown, rules);
        lemma_shown_len(old_keys, view.list.filtered);
        let found = (last_place::<PathBuf>(keys, path, rules)->0 as usize, pair.1);
        let r = choose|i: int| 0 <= i < rows.len() && rows[i] == found;
        assert(row_keys(keys, rows)[r] == keys[found.0 as int]);
        lemma_first_place::<PathBuf>(row_keys(keys, rows), path, rules);
        let p = first_place::<PathBuf>(row_keys(keys, rows), path, rules)->0;
        assert(rows[p].0 < keys.len());
    }
}

/// The first row of a repository.
pub fn find_repo(entries: &Vec<RepoEntry>, path: &PathBuf, rules: PathRules) -> (place: Option<usize>)
    ensures
        match first_place::<PathBuf>(paths_of(entries.deep_view()), path@, rules) {
            Some(at) => place is Some && place->0 as int == at && at < entries@.len(),
            None => place is None,
        },
{
    let keys = key_list(entries);
    assert(keys.deep_view().len() == keys@.len());
    find_first(&keys, path, rules)
}

/// The repository at a path.
pub open spec fn repo_at(entries: Seq<RepoEntryV>, path: Seq<u8>, rules: PathRules) -> Option<RepoV> {
    match first_place::<PathBuf>(paths_of(entries), path, rules) {
        Some(place) => Some(entries[place].repo),
        None => None,
    }
}

pub fn copy_repo_at(entries: &Vec<RepoEntry>, path: &PathBuf, rules: PathRules) -> (repo: Option<Repo>)
    ensures
        repo.deep_view() == repo_at(entries.deep_view(), path@, rules),
{
    match find_repo(entries, path, rules) {
        Some(place) => Some(entries[place].repo.clone()),
        None => None,
    }
}

impl RepoViewV {
    /// The checkouts of the repository at a path replaced.
    pub open spec fn with_worktrees(self, path: Seq<u8>, worktrees: Seq<WorktreeV>) -> RepoViewV {
        let rules = self.path_rules;
        match first_place::<PathBuf>(self.keys(), path, rules) {
            Some(place) => RepoViewV {
                entries: self.entries.update(
                    place,
                    RepoEntryV {
                        repo: RepoV { worktrees, ..self.entries[place].repo },
                        ..self.entries[place]
                    },
                ),
                ..self
            },
            None => self,
        }
    }
}

impl RepoViewState {
    /// Replaces the checkouts of the repository at a path.
    pub fn set_worktrees(&mut self, path: &PathBuf, worktrees: Vec<Worktree>)
        ensures
            final(self).deep_view() == old(self).deep_view().with_worktrees(
                path@,
                worktrees.deep_view(),
            ),
    {
        let rules = self.path_rules;
        let ghost start = self.deep_view();
        let ghost wanted = start.with_worktrees(path@, worktrees.deep_view());
        match find_repo(&self.entries, path, rules) {
            Some(place) => {
                let mut entry = self.entries[place].clone();
                entry.repo.worktrees = worktrees;
                let ghost changed = entry.deep_view();
                self.entries.set(place, entry);
                assert(self.entries.deep_view() =~= start.entries.update(place as int, changed));
            },
            None => {},
        }
        assert(self.deep_view() =~= wanted);
    }
}

/// Whether a repository or folder is open: a repository by its root, a folder by the
/// directories of the panes.
pub open spec fn shown_open(
    is_git: bool,
    canonical: Seq<u8>,
    roots: Seq<Seq<u8>>,
    folders: Seq<Seq<u8>>,
    rules: PathRules,
) -> bool {
    if is_git {
        has_place(roots, canonical, rules)
    } else {
        has_place(folders, canonical, rules)
    }
}

/// The roots of the repositories that workspaces show.
pub open spec fn workspace_roots(workspaces: Seq<WorkspaceInfoV>) -> Seq<Seq<u8>>
    decreases workspaces.len(),
{
    if workspaces.len() == 0 {
        Seq::empty()
    } else {
        let before = workspace_roots(workspaces.drop_last());
        match workspaces.last().worktree {
            Some(worktree) => before.push(encode_utf8(worktree.repo_root)),
            None => before,
        }
    }
}

/// The directories of panes.
pub open spec fn pane_folders(panes: Seq<PaneInfoV>) -> Seq<Seq<u8>>
    decreases panes.len(),
{
    if panes.len() == 0 {
        Seq::empty()
    } else {
        let before = pane_folders(panes.drop_last());
        match panes.last().cwd {
            Some(cwd) => before.push(encode_utf8(cwd)),
            None => before,
        }
    }
}

/// The matches that stand for repositories.
pub open spec fn repo_matches(matches: Seq<(FilterKeyV, i64)>) -> Seq<(Seq<u8>, i64)>
    decreases matches.len(),
{
    if matches.len() == 0 {
        Seq::empty()
    } else {
        let before = repo_matches(matches.drop_last());
        match matches.last().0 {
            FilterKeyV::Repo(path) => before.push((path, matches.last().1)),
            _ => before,
        }
    }
}

pub open spec fn repo_key(key: Option<FilterKeyV>) -> Option<Seq<u8>> {
    match key {
        Some(FilterKeyV::Repo(path)) => Some(path),
        _ => None,
    }
}

pub open spec fn repos_of(entries: Seq<RepoEntryV>) -> Seq<RepoV> {
    entries.map_values(|entry: RepoEntryV| entry.repo)
}

impl RepoViewV {
    /// The rows with their markers taken from what is open.
    pub open spec fn marked_open(self, roots: Seq<Seq<u8>>, folders: Seq<Seq<u8>>) -> RepoViewV {
        RepoViewV {
            entries: self.entries.map_values(
                |entry: RepoEntryV|
                    RepoEntryV {
                        is_open: shown_open(
                            entry.repo.is_git,
                            entry.canonical_path,
                            roots,
                            folders,
                            self.path_rules,
                        ),
                        ..entry
                    },
            ),
            open_roots: roots,
            open_folders: folders,
            ..self
        }
    }

    /// One more repository, unless its path was seen before.
    pub open spec fn with_repo(self, repo: RepoV, canonical: Seq<u8>) -> RepoViewV {
        let rules = self.path_rules;
        if has_path(self.seen_paths, repo.path, rules) {
            self
        } else {
            RepoViewV {
                seen_paths: self.seen_paths.push(repo.path),
                entries: self.entries.push(
                    RepoEntryV {
                        repo,
                        canonical_path: canonical,
                        disambiguator: None,
                        is_open: shown_open(
                            repo.is_git,
                            canonical,
                            self.open_roots,
                            self.open_folders,
                            self.path_rules,
                        ),
                    },
                ),
                ..self
            }
        }
    }

    pub open spec fn with_filter(
        self,
        matches: Seq<(FilterKeyV, i64)>,
        selected: Option<FilterKeyV>,
    ) -> RepoViewV {
        let rules = self.path_rules;
        RepoViewV {
            list: with_matches::<PathBuf>(
                self.list,
                self.keys(),
                repo_matches(matches),
                repo_key(selected),
                rules,
            ),
            ..self
        }
    }

    /// Whether folders tell all repositories of one name apart.
    pub open spec fn distinguishable(self) -> bool {
        places(
            repos_of(self.entries),
            folds_case(self.path_rules),
            self.path_rules,
        ).distinguishable()
    }

    /// The rows with the folders that tell those of one name apart.
    pub open spec fn told_apart(self) -> RepoViewV {
        RepoViewV {
            entries: Seq::new(
                self.entries.len(),
                |i: int|
                    RepoEntryV {
                        disambiguator: places(
                            repos_of(self.entries),
                            folds_case(self.path_rules),
                            self.path_rules,
                        ).label(i),
                        ..self.entries[i]
                    },
            ),
            ..self
        }
    }

    /// What is asked of the filter.
    pub open spec fn filter_request(self, preserve: bool) -> FilterRequestV {
        FilterRequestV {
            target: FilterTarget::Repos,
            generation: self.filter_generation,
            query: self.list.input.text,
            items: self.entries.map_values(
                |entry: RepoEntryV|
                    FilterItemV {
                        key: FilterKeyV::Repo(entry.repo.path),
                        text: entry.display(),
                    },
            ),
            selected: if preserve {
                match self.selected() {
                    Some(entry) => Some(FilterKeyV::Repo(entry.repo.path)),
                    None => None,
                }
            } else {
                None
            },
        }
    }

    /// The list after its query or its rows changed, and what is asked of the filter: an
    /// empty query needs none.
    pub open spec fn refiltered(
        self,
        preserve: bool,
        order: SortOrder,
        recency: Seq<RecencyKeyV>,
    ) -> (RepoViewV, Option<FilterRequestV>) {
        let next = RepoViewV { filter_generation: next_generation(self.filter_generation), ..self };
        if self.list.input.text.len() == 0 {
            let sorted = next.resorted(order, recency);
            (
                if preserve {
                    sorted.on_default(order)
                } else {
                    RepoViewV {
                        list: SearchableListV {
                            selected: or_first(None, sorted.entries.len()),
                            ..sorted.list
                        },
                        ..sorted
                    }
                },
                None,
            )
        } else {
            (next, Some(next.filter_request(preserve)))
        }
    }
}

/// What the list of repositories does with an event: nothing where the event is not its own.
pub open spec fn after_event(event: AppEvent, state: AppStateV, changes: TickChangesV) -> Option<
    (AppStateV, TickChangesV),
> {
    let rules = state.repo_view.path_rules;
    let view = state.repo_view;
    match event {
        AppEvent::ReposFound { repo, canonical_path } => Some(
            (
                AppStateV {
                    repo_view: view.with_repo(repo.deep_view(), canonical_path@),
                    ..state
                },
                TickChangesV {
                    repos_changed: changes.repos_changed || !has_path(
                        view.seen_paths,
                        repo.path@,
                        rules,
                    ),
                    ..changes
                },
            ),
        ),
        AppEvent::ScanComplete => Some(
            (
                AppStateV { repo_view: RepoViewV { loading: false, ..view }, ..state },
                TickChangesV { collision_pass: true, ..changes },
            ),
        ),
        AppEvent::ScanWarning(_) => Some((state.scan_warned(), changes)),
        AppEvent::OpenWorkspacesLoaded { workspaces } => Some(
            (
                AppStateV {
                    repo_view: view.marked_open(
                        workspace_roots(workspaces.deep_view()),
                        view.open_folders,
                    ),
                    ..state
                },
                changes,
            ),
        ),
        AppEvent::OpenFolderPanesLoaded { panes } => Some(
            (
                AppStateV {
                    repo_view: view.marked_open(view.open_roots, pane_folders(panes.deep_view())),
                    ..state
                },
                changes,
            ),
        ),
        AppEvent::FilterCompleted { target, generation, matches, selected } => if target
            == FilterTarget::Repos && generation == view.filter_generation {
            Some(
                (
                    AppStateV {
                        repo_view: view.with_filter(matches.deep_view(), selected.deep_view()),
                        ..state
                    },
                    changes,
                ),
            )
        } else {
            None
        },
        AppEvent::RepoOpenFailed(message) => match state.mode {
            ModeV::Loading { branch: None, .. } => Some(
                (
                    AppStateV { mode: ModeV::RepoSelect, ..state }.told(
                        ToastKind::Error,
                        message@,
                    ),
                    changes,
                ),
            ),
            _ => None,
        },
        AppEvent::OpenWorkspacesFailed(message) => Some(
            (state.told(ToastKind::Warning, message@), changes),
        ),
        AppEvent::OpenFolderPanesFailed(message) => Some(
            (state.told(ToastKind::Warning, message@), changes),
        ),
        _ => None,
    }
}

fn is_shown_open(
    is_git: bool,
    canonical: &PathBuf,
    roots: &Vec<PathBuf>,
    folders: &Vec<PathBuf>,
    rules: PathRules,
) -> (answer: bool)
    ensures
        answer == shown_open(is_git, canonical@, roots.deep_view(), folders.deep_view(), rules),
{
    if is_git {
        contains_place(roots, canonical, rules)
    } else {
        contains_place(folders, canonical, rules)
    }
}

#[verifier::loop_isolation(false)]
fn roots_of(workspaces: &Vec<WorkspaceInfo>) -> (roots: Vec<PathBuf>)
    ensures
        roots.deep_view() == workspace_roots(workspaces.deep_view()),
{
    let ghost all = workspaces.deep_view();
    let mut roots: Vec<PathBuf> = Vec::new();
    let mut i: usize = 0;
    assert(roots.deep_view() =~= workspace_roots(all.take(0)));
    while i < workspaces.len()
        invariant
            i <= workspaces.len(),
            roots.deep_view() == workspace_roots(all.take(i as int)),
        decreases workspaces.len() - i,
    {
        let ghost before = roots.deep_view();
        proof {
            assert(all.take(i + 1).drop_last() =~= all.take(i as int));
            assert(all.take(i + 1).last() == workspaces@[i as int].deep_view());
        }
        match &workspaces[i].worktree {
            Some(worktree) => {
                let root = PathBuf::new(worktree.repo_root.as_str());
                let ghost added = root@;
                roots.push(root);
                assert(roots.deep_view() =~= before.push(added));
            },
            None => {},
        }
        i = i + 1;
    }
    assert(all.take(all.len() as int) =~= all);
    roots
}

#[verifier::loop_isolation(false)]
fn folders_shown(panes: &Vec<PaneInfo>) -> (folders: Vec<PathBuf>)
    ensures
        folders.deep_view() == pane_folders(panes.deep_view()),
{
    let ghost all = panes.deep_view();
    let mut folders: Vec<PathBuf> = Vec::new();
    let mut i: usize = 0;
    assert(folders.deep_view() =~= pane_folders(all.take(0)));
    while i < panes.len()
        invariant
            i <= panes.len(),
            folders.deep_view() == pane_folders(all.take(i as int)),
        decreases panes.len() - i,
    {
        let ghost before = folders.deep_view();
        proof {
            assert(all.take(i + 1).drop_last() =~= all.take(i as int));
            assert(all.take(i + 1).last() == panes@[i as int].deep_view());
        }
        match &panes[i].cwd {
            Some(cwd) => {
                let folder = PathBuf::new(cwd.as_str());
                let ghost added = folder@;
                folders.push(folder);
                assert(folders.deep_view() =~= before.push(added));
            },
            None => {},
        }
        i = i + 1;
    }
    assert(all.take(all.len() as int) =~= all);
    folders
}

#[verifier::loop_isolation(false)]
fn matched_paths(matches: &Vec<(FilterKey, i64)>) -> (scored: Vec<(PathBuf, i64)>)
    ensures
        scored.deep_view() == repo_matches(matches.deep_view()),
{
    let ghost all = matches.deep_view();
    let mut scored: Vec<(PathBuf, i64)> = Vec::new();
    let mut i: usize = 0;
    assert(scored.deep_view() =~= repo_matches(all.take(0)));
    while i < matches.len()
        invariant
            i <= matches.len(),
            scored.deep_view() == repo_matches(all.take(i as int)),
        decreases matches.len() - i,
    {
        let ghost before = scored.deep_view();
        proof {
            assert(all.take(i + 1).drop_last() =~= all.take(i as int));
            assert(all.take(i + 1).last() == matches@[i as int].deep_view());
        }
        match &matches[i].0 {
            FilterKey::Repo(path) => {
                let pair = (path.clone(), matches[i].1);
                let ghost added = pair.deep_view();
                scored.push(pair);
                assert(scored.deep_view() =~= before.push(added));
            },
            _ => {},
        }
        i = i + 1;
    }
    assert(all.take(all.len() as int) =~= all);
    scored
}

impl RepoViewState {
    /// Takes in what is open.
    #[verifier::loop_isolation(false)]
    fn apply_open_indicators(&mut self, roots: Vec<PathBuf>, folders: Vec<PathBuf>)
        ensures
            final(self).deep_view() == old(self).deep_view().marked_open(
                roots.deep_view(),
                folders.deep_view(),
            ),
    {
        let ghost start = self.deep_view();
        let ghost wanted = start.marked_open(roots.deep_view(), folders.deep_view());
        let mut entries: Vec<RepoEntry> = Vec::new();
        let mut i: usize = 0;
        while i < self.entries.len()
            invariant
                i <= self.entries.len(),
                self.deep_view() == start,
                entries@.len() == i,
                forall|k: int|
                    0 <= k < i ==> (#[trigger] entries@[k]).deep_view() == wanted.entries[k],
            decreases self.entries.len() - i,
        {
            let mut entry = self.entries[i].clone();
            entry.is_open = is_shown_open(
                entry.repo.is_git,
                &entry.canonical_path,
                &roots,
                &folders,
                self.path_rules,
            );
            assert(self.entries@[i as int].deep_view() == start.entries[i as int]);
            assert(entry.deep_view() == wanted.entries[i as int]);
            entries.push(entry);
            i = i + 1;
        }
        assert(entries.deep_view() =~= wanted.entries);
        self.entries = entries;
        self.open_roots = roots;
        self.open_folders = folders;
        assert(self.deep_view() =~= wanted);
    }

    /// Takes in a repository, unless its path was seen before.
    fn add_repo(&mut self, repo: Repo, canonical_path: PathBuf) -> (added: bool)
        ensures
            added == !has_path(old(self).deep_view().seen_paths, repo.path@, old(self).path_rules),
            final(self).deep_view() == old(self).deep_view().with_repo(
                repo.deep_view(),
                canonical_path@,
            ),
    {
        let rules = self.path_rules;
        let ghost start = self.deep_view();
        if contains_path(&self.seen_paths, &repo.path, rules) {
            return false;
        }
        let ghost wanted = start.with_repo(repo.deep_view(), canonical_path@);
        self.seen_paths.push(repo.path.clone());
        assert(self.seen_paths.deep_view() =~= wanted.seen_paths);
        let is_open = is_shown_open(
            repo.is_git,
            &canonical_path,
            &self.open_roots,
            &self.open_folders,
            self.path_rules,
        );
        let entry = RepoEntry { repo, canonical_path, disambiguator: None, is_open };
        self.entries.push(entry);
        assert(self.entries.deep_view() =~= wanted.entries);
        assert(self.deep_view() =~= wanted);
        true
    }

    fn apply_filter_result(&mut self, matches: &Vec<(FilterKey, i64)>, selected: Option<&FilterKey>)
        ensures
            final(self).deep_view() == old(self).deep_view().with_filter(
                matches.deep_view(),
                selected.deep_view(),
            ),
    {
        let rules = self.path_rules;
        let keys = key_list(&self.entries);
        let scored = matched_paths(matches);
        let requested: Option<&PathBuf> = match selected {
            Some(FilterKey::Repo(path)) => Some(path),
            _ => None,
        };
        apply_matches(&mut self.list, &keys, &scored, requested, rules);
    }

    #[verifier::loop_isolation(false)]
    fn repo_list(&self) -> (repos: Vec<Repo>)
        ensures
            repos.deep_view() == repos_of(self.deep_view().entries),
    {
        let mut repos: Vec<Repo> = Vec::new();
        let mut i: usize = 0;
        while i < self.entries.len()
            invariant
                i <= self.entries.len(),
                repos@.len() == i,
                forall|k: int|
                    0 <= k < i ==> (#[trigger] repos@[k]).deep_view()
                        == self.entries@[k].repo.deep_view(),
            decreases self.entries.len() - i,
        {
            repos.push(self.entries[i].repo.clone());
            i = i + 1;
        }
        assert(repos.deep_view() =~= repos_of(self.deep_view().entries));
        repos
    }

    /// Tells the repositories of one name apart by their folders. `false` where folders do
    /// not tell some of them apart; nothing changes then.
    #[verifier::loop_isolation(false)]
    pub fn apply_collisions(&mut self) -> (applied: bool)
        ensures
            applied == old(self).deep_view().distinguishable(),
            final(self).deep_view() == if applied {
                old(self).deep_view().told_apart()
            } else {
                old(self).deep_view()
            },
    {
        let ghost start = self.deep_view();
        let ghost wanted = start.told_apart();
        let repos = self.repo_list();
        let ghost all = places(
            repos.deep_view(),
            folds_case(self.path_rules),
            self.path_rules,
        );
        let listed: &[Repo] = repos.as_slice();
        assert(listed.deep_view() =~= repos.deep_view());
        let labels = match checked_disambiguators(
            listed,
            is_case_folded(self.path_rules),
            self.path_rules,
        ) {
            Some(labels) => labels,
            None => return false,
        };
        assert(repos@.len() == self.entries@.len()) by {
            assert(repos.deep_view().len() == repos@.len());
        }
        let mut entries: Vec<RepoEntry> = Vec::new();
        let mut i: usize = 0;
        while i < self.entries.len()
            invariant
                i <= self.entries.len(),
                self.deep_view() == start,
                entries@.len() == i,
                forall|k: int|
                    0 <= k < i ==> (#[trigger] entries@[k]).deep_view() == wanted.entries[k],
            decreases self.entries.len() - i,
        {
            let mut entry = self.entries[i].clone();
            entry.disambiguator = copy_optional_text(&labels[i]);
            proof {
                lemma_one_label(all, i as int, labels@[i as int].deep_view());
                assert(self.entries@[i as int].deep_view() == start.entries[i as int]);
                assert(entry.deep_view() == wanted.entries[i as int]);
            }
            entries.push(entry);
            i = i + 1;
        }
        assert(entries.deep_view() =~= wanted.entries);
        self.entries = entries;
        assert(self.deep_view() =~= wanted);
        true
    }

    #[verifier::loop_isolation(false)]
    fn filter_items(&self) -> (items: Vec<FilterItem>)
        ensures
            items.deep_view() == self.deep_view().filter_request(false).items,
    {
        let ghost wanted = self.deep_view().filter_request(false).items;
        let mut items: Vec<FilterItem> = Vec::new();
        let mut i: usize = 0;
        while i < self.entries.len()
            invariant
                i <= self.entries.len(),
                items@.len() == i,
                forall|k: int| 0 <= k < i ==> (#[trigger] items@[k]).deep_view() == wanted[k],
            decreases self.entries.len() - i,
        {
            let item = FilterItem {
                key: FilterKey::Repo(self.entries[i].repo.path.clone()),
                text: self.entries[i].display_name(),
            };
            assert(self.entries@[i as int].deep_view() == self.deep_view().entries[i as int]);
            assert(item.deep_view() == wanted[i as int]);
            items.push(item);
            i = i + 1;
        }
        assert(items.deep_view() =~= wanted);
        items
    }

    /// Takes in that the query or the rows changed.
    pub fn queue_filter(
        &mut self,
        preserve_selection: bool,
        order: SortOrder,
        recency: &RecencyStore,
    ) -> (request: Option<FilterRequest>)
        ensures
            (final(self).deep_view(), request.deep_view()) == old(self).deep_view().refiltered(
                preserve_selection,
                order,
                recency.deep_view(),
            ),
    {
        let ghost start = self.deep_view();
        self.filter_generation = advance(self.filter_generation);
        if self.list.input.text.as_str().is_empty() {
            self.canonical_sort(order, recency);
            if preserve_selection {
                self.apply_default_selection(order);
            } else {
                self.list.selected = if self.entries.len() > 0 {
                    Some(0)
                } else {
                    None
                };
            }
            return None;
        }
        let selected = if preserve_selection {
            match self.selected_path() {
                Some(path) => Some(FilterKey::Repo(path)),
                None => None,
            }
        } else {
            None
        };
        Some(
            FilterRequest {
                target: FilterTarget::Repos,
                generation: self.filter_generation,
                query: self.list.input.text.clone(),
                items: self.filter_items(),
                selected,
            },
        )
    }
}

/// Takes an event in, or hands it back where it is not for the list of repositories.
pub fn handle_event(event: AppEvent, state: &mut AppState, changes: &mut TickChanges) -> (passed:
    Option<AppEvent>)
    ensures
        match after_event(event, old(state).deep_view(), old(changes).deep_view()) {
            Some((state_after, changes_after)) => passed is None && final(state).deep_view()
                == state_after && final(changes).deep_view() == changes_after,
            None => passed == Some(event) && *final(state) == *old(state) && *final(changes)
                == *old(changes),
        },
{
    match event {
        AppEvent::ReposFound { repo, canonical_path } => {
            if state.repo_view.add_repo(repo, canonical_path) {
                changes.repos_changed = true;
            }
            None
        },
        AppEvent::ScanComplete => {
            state.repo_view.loading = false;
            changes.collision_pass = true;
            None
        },
        AppEvent::ScanWarning(_) => {
            state.push_scan_warning();
            None
        },
        AppEvent::OpenWorkspacesLoaded { workspaces } => {
            let roots = roots_of(&workspaces);
            let folders = copy_paths(&state.repo_view.open_folders);
            state.repo_view.apply_open_indicators(roots, folders);
            None
        },
        AppEvent::OpenFolderPanesLoaded { panes } => {
            let roots = copy_paths(&state.repo_view.open_roots);
            let folders = folders_shown(&panes);
            state.repo_view.apply_open_indicators(roots, folders);
            None
        },
        AppEvent::FilterCompleted { target, generation, matches, selected } => {
            if target == FilterTarget::Repos && generation == state.repo_view.filter_generation {
                state.repo_view.apply_filter_result(&matches, selected.as_ref());
                None
            } else {
                Some(AppEvent::FilterCompleted { target, generation, matches, selected })
            }
        },
        AppEvent::RepoOpenFailed(message) => {
            let opening = match &state.mode {
                Mode::Loading { branch: None, .. } => true,
                _ => false,
            };
            if opening {
                state.mode = Mode::RepoSelect;
                state.push_toast(ToastKind::Error, message.as_str());
                None
            } else {
                Some(AppEvent::RepoOpenFailed(message))
            }
        },
        AppEvent::OpenWorkspacesFailed(message) => {
            state.push_toast(ToastKind::Warning, message.as_str());
            None
        },
        AppEvent::OpenFolderPanesFailed(message) => {
            state.push_toast(ToastKind::Warning, message.as_str());
            None
        },
        other => Some(other),
    }
}

/// Sorts the list of repositories.
pub fn sort_entries(state: &mut AppState)
    ensures
        final(state).deep_view() == (AppStateV {
            repo_view: old(state).deep_view().repo_view.resorted(
                old(state).sort_order,
                old(state).deep_view().recency,
            ),
            ..old(state).deep_view()
        }),
        final(state).deep_view().repo_view.list_valid(),
{
    state.repo_view.canonical_sort(state.sort_order, &state.recency);
}

/// Selects what the list of repositories starts with.
pub fn apply_default_selection(state: &mut AppState)
    requires
        old(state).deep_view().repo_view.list_valid(),
    ensures
        final(state).deep_view() == (AppStateV {
            repo_view: old(state).deep_view().repo_view.on_default(old(state).sort_order),
            ..old(state).deep_view()
        }),
        final(state).deep_view().repo_view.list_valid(),
{
    state.repo_view.apply_default_selection(state.sort_order);
}

impl AppStateV {
    /// The list of repositories sorted, with its selection.
    pub open spec fn settled(self) -> AppStateV {
        AppStateV {
            repo_view: self.repo_view.resorted(self.sort_order, self.recency).on_default(
                self.sort_order,
            ),
            ..self
        }
    }

    pub open spec fn repos_refiltered(self, preserve: bool) -> (AppStateV, Option<FilterRequestV>) {
        let (view, request) = self.repo_view.refiltered(preserve, self.sort_order, self.recency);
        (AppStateV { repo_view: view, ..self }, request)
    }
}

/// The changes of one tick taken in: the list sorted anew where it changed, the repositories
/// of one name told apart once the scan is done, and the filter asked. Nothing where folders
/// do not tell some repositories apart.
pub open spec fn after_changes(state: AppStateV, changes: TickChangesV) -> Option<
    (AppStateV, TickChangesV, Option<FilterRequestV>),
> {
    let sorted = if changes.repos_changed {
        state.settled()
    } else {
        state
    };
    if changes.collision_pass && !sorted.repo_view.distinguishable() {
        None
    } else {
        let told = if changes.collision_pass {
            AppStateV { repo_view: sorted.repo_view.told_apart(), ..sorted }.settled()
        } else {
            sorted
        };
        let changed = changes.repos_changed || changes.collision_pass;
        let after = TickChangesV { repos_changed: changed, ..changes };
        if changed && told.mode == ModeV::RepoSelect {
            let (last, request) = told.repos_refiltered(true);
            Some((last, after, request))
        } else {
            Some((told, after, None))
        }
    }
}

/// Folders do not tell some repositories of one name apart.
#[derive(Debug, Clone, Copy, PartialEq, Eq, Structural)]
pub struct AmbiguousRepos;

/// Takes in the changes of one tick.
#[verifier::rlimit(60)]
pub fn apply_changes(state: &mut AppState, changes: &mut TickChanges) -> (outcome: Result<
    Option<FilterRequest>,
    AmbiguousRepos,
>)
    ensures
        match after_changes(old(state).deep_view(), old(changes).deep_view()) {
            Some((state_after, changes_after, request)) => final(state).deep_view() == state_after
                && final(changes).deep_view() == changes_after && outcome is Ok
                && outcome->Ok_0.deep_view() == request,
            None => outcome is Err && final(state).deep_view() == (if old(changes).repos_changed {
                old(state).deep_view().settled()
            } else {
                old(state).deep_view()
            }) && *final(changes) == *old(changes),
        },
{
    if changes.repos_changed {
        sort_entries(state);
        apply_default_selection(state);
    }
    if changes.collision_pass {
        if !state.repo_view.apply_collisions() {
            return Err(AmbiguousRepos);
        }
        sort_entries(state);
        apply_default_selection(state);
        changes.repos_changed = true;
    }
    let listed = match &state.mode {
        Mode::RepoSelect => true,
        _ => false,
    };
    if changes.repos_changed && listed {
        return Ok(queue_filter(state, true));
    }
    Ok(None)
}

pub fn move_selection(state: &mut AppState, delta: i32)
    ensures
        final(state).deep_view() == (AppStateV {
            repo_view: RepoViewV {
                selection_touched: true,
                list: old(state).deep_view().repo_view.list.moved(delta as int),
                ..old(state).deep_view().repo_view
            },
            ..old(state).deep_view()
        }),
{
    state.repo_view.selection_touched = true;
    state.repo_view.list.move_selection(delta);
}

/// Changes the query.
pub fn edit(state: &mut AppState, change: Edit) -> (request: Option<FilterRequest>)
    ensures
        (final(state).deep_view(), request.deep_view()) == (AppStateV {
            repo_view: RepoViewV {
                selection_touched: true,
                list: SearchableListV {
                    input: old(state).deep_view().repo_view.list.input.edited(change),
                    ..old(state).deep_view().repo_view.list
                },
                ..old(state).deep_view().repo_view
            },
            ..old(state).deep_view()
        }).repos_refiltered(false),
{
    state.repo_view.selection_touched = true;
    state.repo_view.list.input.edit(change);
    queue_filter(state, false)
}

/// Takes in that the query or the rows changed.
pub fn queue_filter(state: &mut AppState, preserve_selection: bool) -> (request: Option<
    FilterRequest,
>)
    ensures
        (final(state).deep_view(), request.deep_view())
            == old(state).deep_view().repos_refiltered(preserve_selection),
{
    state.repo_view.queue_filter(preserve_selection, state.sort_order, &state.recency)
}

pub open spec fn opening(name: Seq<char>) -> Seq<char> {
    "Opening "@ + name + "…"@
}

/// Opening the selected repository or folder: what is shown, and what is asked for.
pub open spec fn after_open(state: AppStateV, inside_herdr: bool) -> (AppStateV, Option<EffectV>) {
    match state.repo_view.selected() {
        Some(entry) => if inside_herdr {
            (
                AppStateV {
                    mode: ModeV::Loading { message: opening(entry.repo.name), branch: None },
                    ..state
                },
                Some(
                    if entry.repo.is_git {
                        EffectV::OpenRepo { repo_path: entry.repo.path }
                    } else {
                        EffectV::OpenFolder { path: entry.repo.path }
                    },
                ),
            )
        } else {
            (state.told(ToastKind::Error, "not running inside herdr"@), None)
        },
        None => (state, None),
    }
}

/// Opens the selected repository or folder.
pub fn open_selected(state: &mut AppState, inside_herdr: bool) -> (effect: Option<Effect>)
    ensures
        (final(state).deep_view(), effect.deep_view()) == after_open(
            old(state).deep_view(),
            inside_herdr,
        ),
{
    let (path, name, is_git) = match state.repo_view.selected() {
        Some(entry) => (entry.repo.path.clone(), entry.repo.name.clone(), entry.repo.is_git),
        None => return None,
    };
    if !inside_herdr {
        state.push_toast(ToastKind::Error, "not running inside herdr");
        return None;
    }
    state.mode = Mode::Loading {
        message: concat3("Opening ", name.as_str(), "…"),
        branch: None,
    };
    if is_git {
        Some(Effect::OpenRepo { repo_path: path })
    } else {
        Some(Effect::OpenFolder { path })
    }
}

} // verus!
