//! Rows of a searchable list, found again by what they stand for.

use crate::branches::{BranchId, BranchIdV};
use crate::input::{SearchableList, SearchableListV};
use crate::path::{equal_paths, same_path, PathBuf, PathRules};
use crate::text::same_text;
use vstd::prelude::*;

verus! {

/// What identifies a row.
pub trait RowKey: DeepView + Sized {
    spec fn same_view(left: Self::V, right: Self::V, rules: PathRules) -> bool;

    fn same_key(&self, other: &Self, rules: PathRules) -> (answer: bool)
        ensures
            answer == Self::same_view(self.deep_view(), other.deep_view(), rules),
    ;

    fn copy_key(&self) -> (copy: Self)
        ensures
            copy.deep_view() == self.deep_view(),
    ;
}

impl RowKey for PathBuf {
    open spec fn same_view(left: Seq<u8>, right: Seq<u8>, rules: PathRules) -> bool {
        same_path(left, right, rules)
    }

    fn same_key(&self, other: &Self, rules: PathRules) -> (answer: bool) {
        equal_paths(self, other, rules)
    }

    fn copy_key(&self) -> (copy: Self) {
        self.clone()
    }
}

impl RowKey for BranchId {
    open spec fn same_view(left: BranchIdV, right: BranchIdV, rules: PathRules) -> bool {
        left == right
    }

    fn same_key(&self, other: &Self, rules: PathRules) -> (answer: bool) {
        self.same(other)
    }

    fn copy_key(&self) -> (copy: Self) {
        self.clone()
    }
}

impl RowKey for String {
    open spec fn same_view(left: Seq<char>, right: Seq<char>, rules: PathRules) -> bool {
        left == right
    }

    fn same_key(&self, other: &Self, rules: PathRules) -> (answer: bool) {
        same_text(self.as_str(), other.as_str())
    }

    fn copy_key(&self) -> (copy: Self) {
        self.clone()
    }
}

/// The last place of a key.
pub open spec fn last_place<K: RowKey>(keys: Seq<K::V>, key: K::V, rules: PathRules) -> Option<int>
    decreases keys.len(),
{
    if keys.len() == 0 {
        None
    } else if K::same_view(keys.last(), key, rules) {
        Some(keys.len() - 1)
    } else {
        last_place::<K>(keys.drop_last(), key, rules)
    }
}

/// The first place of a key.
pub open spec fn first_place<K: RowKey>(keys: Seq<K::V>, key: K::V, rules: PathRules) -> Option<int>
    decreases keys.len(),
{
    if keys.len() == 0 {
        None
    } else {
        match first_place::<K>(keys.drop_last(), key, rules) {
            Some(place) => Some(place),
            None => if K::same_view(keys.last(), key, rules) {
                Some(keys.len() - 1)
            } else {
                None
            },
        }
    }
}

/// The rows of scored keys; a key that is not there has no row.
pub open spec fn rows_of<K: RowKey>(keys: Seq<K::V>, scored: Seq<(K::V, i64)>, rules: PathRules) -> Seq<(usize, i64)>
    decreases scored.len(),
{
    if scored.len() == 0 {
        Seq::empty()
    } else {
        let before = rows_of::<K>(keys, scored.drop_last(), rules);
        match last_place::<K>(keys, scored.last().0, rules) {
            Some(place) => before.push((place as usize, scored.last().1)),
            None => before,
        }
    }
}

/// The keys that rows stand for, in the order of the rows.
pub open spec fn row_keys<V>(keys: Seq<V>, rows: Seq<(usize, i64)>) -> Seq<V> {
    rows.map_values(|row: (usize, i64)| keys[row.0 as int])
}

/// The keys and scores that a list shows, without rows that point past the end.
pub open spec fn shown_keys<V>(keys: Seq<V>, rows: Seq<(usize, i64)>) -> Seq<(V, i64)>
    decreases rows.len(),
{
    if rows.len() == 0 {
        Seq::empty()
    } else {
        let before = shown_keys(keys, rows.drop_last());
        if rows.last().0 < keys.len() {
            before.push((keys[rows.last().0 as int], rows.last().1))
        } else {
            before
        }
    }
}

pub open spec fn rows_valid(rows: Seq<(usize, i64)>, count: nat) -> bool {
    forall|i: int| 0 <= i < rows.len() ==> (#[trigger] rows[i]).0 < count
}

/// Which item a list has selected.
pub open spec fn selected_index(list: SearchableListV, count: nat) -> Option<int> {
    match list.selected {
        Some(selected) => if selected < list.filtered.len() && list.filtered[selected as int].0
            < count {
            Some(list.filtered[selected as int].0 as int)
        } else {
            None
        },
        None => None,
    }
}

/// The key of the selected row.
pub open spec fn selected_key<V>(list: SearchableListV, keys: Seq<V>) -> Option<V> {
    match selected_index(list, keys.len()) {
        Some(index) => Some(keys[index]),
        None => None,
    }
}

/// The selection of a list whose key is wanted: its first row, where the key has none.
pub open spec fn position_of<K: RowKey>(
    keys: Seq<K::V>,
    rows: Seq<(usize, i64)>,
    wanted: Option<K::V>,
    rules: PathRules,
) -> Option<usize> {
    match wanted {
        Some(key) => match first_place::<K>(row_keys(keys, rows), key, rules) {
            Some(place) => Some(place as usize),
            None => None,
        },
        None => None,
    }
}

pub open spec fn or_first(position: Option<usize>, count: nat) -> Option<usize> {
    match position {
        Some(position) => Some(position),
        None => if count > 0 {
            Some(0usize)
        } else {
            None
        },
    }
}

/// A list after its matches came back: what was selected stays selected, else what was asked
/// for, else the first row.
pub open spec fn with_matches<K: RowKey>(
    list: SearchableListV,
    keys: Seq<K::V>,
    scored: Seq<(K::V, i64)>,
    requested: Option<K::V>,
    rules: PathRules,
) -> SearchableListV {
    let rows = rows_of::<K>(keys, scored, rules);
    let current = selected_key(list, keys);
    let wanted = if current is Some {
        current
    } else {
        requested
    };
    SearchableListV {
        filtered: rows,
        selected: or_first(position_of::<K>(keys, rows, wanted, rules), rows.len()),
        scroll_offset: 0,
        ..list
    }
}

pub proof fn lemma_last_place<K: RowKey>(keys: Seq<K::V>, key: K::V, rules: PathRules)
    ensures
        match last_place::<K>(keys, key, rules) {
            Some(place) => 0 <= place < keys.len() && K::same_view(keys[place], key, rules) && forall|
                i: int,
            |
                place < i < keys.len() ==> !K::same_view(#[trigger] keys[i], key, rules),
            None => forall|i: int| 0 <= i < keys.len() ==> !K::same_view(#[trigger] keys[i], key, rules),
        },
    decreases keys.len(),
{
    if keys.len() > 0 && !K::same_view(keys.last(), key, rules) {
        let before = keys.drop_last();
        lemma_last_place::<K>(before, key, rules);
        match last_place::<K>(keys, key, rules) {
            Some(place) => {
                assert forall|i: int| place < i < keys.len() implies !K::same_view(
                    #[trigger] keys[i],
                    key,
                    rules,
                ) by {
                    if i < before.len() {
                        assert(keys[i] == before[i]);
                    }
                }
            },
            None => {
                assert forall|i: int| 0 <= i < keys.len() implies !K::same_view(
                    #[trigger] keys[i],
                    key,
                    rules,
                ) by {
                    if i < before.len() {
                        assert(keys[i] == before[i]);
                    }
                }
            },
        }
    }
}

pub proof fn lemma_first_place<K: RowKey>(keys: Seq<K::V>, key: K::V, rules: PathRules)
    ensures
        match first_place::<K>(keys, key, rules) {
            Some(place) => 0 <= place < keys.len() && K::same_view(keys[place], key, rules) && forall|
                i: int,
            |
                0 <= i < place ==> !K::same_view(#[trigger] keys[i], key, rules),
            None => forall|i: int| 0 <= i < keys.len() ==> !K::same_view(#[trigger] keys[i], key, rules),
        },
    decreases keys.len(),
{
    if keys.len() > 0 {
        let before = keys.drop_last();
        lemma_first_place::<K>(before, key, rules);
        match first_place::<K>(keys, key, rules) {
            Some(place) => {
                assert forall|i: int| 0 <= i < place implies !K::same_view(
                    #[trigger] keys[i],
                    key,
                    rules,
                ) by {
                    assert(keys[i] == before[i]);
                }
            },
            None => {
                assert forall|i: int| 0 <= i < keys.len() implies !K::same_view(
                    #[trigger] keys[i],
                    key,
                    rules,
                ) by {
                    if i < before.len() {
                        assert(keys[i] == before[i]);
                    }
                }
            },
        }
    }
}

/// Rows that were looked up point at items.
pub proof fn lemma_rows_valid<K: RowKey>(keys: Seq<K::V>, scored: Seq<(K::V, i64)>, rules: PathRules)
    requires
        keys.len() <= usize::MAX,
    ensures
        rows_valid(rows_of::<K>(keys, scored, rules), keys.len()),
        rows_of::<K>(keys, scored, rules).len() <= scored.len(),
    decreases scored.len(),
{
    if scored.len() > 0 {
        lemma_rows_valid::<K>(keys, scored.drop_last(), rules);
        lemma_last_place::<K>(keys, scored.last().0, rules);
    }
}

pub fn find_last<K: RowKey>(keys: &Vec<K>, key: &K, rules: PathRules) -> (place: Option<usize>)
    ensures
        match last_place::<K>(keys.deep_view(), key.deep_view(), rules) {
            Some(at) => place is Some && place->0 as int == at && at < keys@.len(),
            None => place is None,
        },
{
    let ghost all = keys.deep_view();
    let mut i: usize = keys.len();
    assert(all.take(all.len() as int) =~= all);
    while i > 0
        invariant
            i <= keys.len(),
            all == keys.deep_view(),
            last_place::<K>(all, key.deep_view(), rules) == last_place::<K>(
                all.take(i as int),
                key.deep_view(),
                rules,
            ),
        decreases i,
    {
        proof {
            assert(all.take(i as int).drop_last() =~= all.take(i - 1));
            assert(all.take(i as int).last() == keys@[i - 1].deep_view());
        }
        i = i - 1;
        if keys[i].same_key(key, rules) {
            return Some(i);
        }
    }
    None
}

proof fn lemma_first_place_prefix<K: RowKey>(keys: Seq<K::V>, key: K::V, count: int, rules: PathRules)
    requires
        0 <= count <= keys.len(),
        first_place::<K>(keys.take(count), key, rules) is Some,
    ensures
        first_place::<K>(keys, key, rules) == first_place::<K>(keys.take(count), key, rules),
    decreases keys.len(),
{
    if count == keys.len() {
        assert(keys.take(count) =~= keys);
    } else {
        assert(keys.drop_last().take(count) =~= keys.take(count));
        lemma_first_place_prefix::<K>(keys.drop_last(), key, count, rules);
    }
}

pub fn find_first<K: RowKey>(keys: &Vec<K>, key: &K, rules: PathRules) -> (place: Option<usize>)
    ensures
        match first_place::<K>(keys.deep_view(), key.deep_view(), rules) {
            Some(at) => place is Some && place->0 as int == at && at < keys@.len(),
            None => place is None,
        },
{
    let ghost all = keys.deep_view();
    let mut i: usize = 0;
    while i < keys.len()
        invariant
            i <= keys.len(),
            all == keys.deep_view(),
            first_place::<K>(all.take(i as int), key.deep_view(), rules) is None,
        decreases keys.len() - i,
    {
        proof {
            assert(all.take(i + 1).drop_last() =~= all.take(i as int));
            assert(all.take(i + 1).last() == keys@[i as int].deep_view());
        }
        if keys[i].same_key(key, rules) {
            proof {
                lemma_first_place_prefix::<K>(all, key.deep_view(), i + 1, rules);
            }
            return Some(i);
        }
        i = i + 1;
    }
    assert(all.take(all.len() as int) =~= all);
    None
}

#[verifier::loop_isolation(false)]
pub fn look_up_rows<K: RowKey>(keys: &Vec<K>, scored: &Vec<(K, i64)>, rules: PathRules) -> (rows: Vec<(usize, i64)>)
    ensures
        rows@ == rows_of::<K>(keys.deep_view(), scored.deep_view(), rules),
        rows_valid(rows@, keys@.len()),
{
    let ghost all = scored.deep_view();
    let count: usize = keys.len();
    let mut rows: Vec<(usize, i64)> = Vec::new();
    let mut i: usize = 0;
    assert(rows@ =~= rows_of::<K>(keys.deep_view(), all.take(0), rules));
    while i < scored.len()
        invariant
            i <= scored.len(),
            rows@ == rows_of::<K>(keys.deep_view(), all.take(i as int), rules),
        decreases scored.len() - i,
    {
        proof {
            assert(all.take(i + 1).drop_last() =~= all.take(i as int));
            assert(all.take(i + 1).last() == (scored@[i as int].0.deep_view(), scored@[i as int].1));
        }
        match find_last(keys, &scored[i].0, rules) {
            Some(place) => rows.push((place, scored[i].1)),
            None => {},
        }
        i = i + 1;
    }
    proof {
        assert(all.take(all.len() as int) =~= all);
        assert(keys.deep_view().len() == count);
        lemma_rows_valid::<K>(keys.deep_view(), all, rules);
    }
    rows
}

/// Where the first row stands that shows the wanted key.
#[verifier::loop_isolation(false)]
pub fn find_position<K: RowKey>(keys: &Vec<K>, rows: &Vec<(usize, i64)>, wanted: Option<&K>, rules: PathRules) -> (
    position: Option<usize>)
    requires
        rows_valid(rows@, keys@.len()),
    ensures
        position == position_of::<K>(keys.deep_view(), rows@, wanted.deep_view(), rules),
        position matches Some(at) ==> at < rows@.len(),
{
    let key = match wanted {
        Some(key) => key,
        None => return None,
    };
    let ghost all = row_keys(keys.deep_view(), rows@);
    let mut i: usize = 0;
    while i < rows.len()
        invariant
            i <= rows.len(),
            first_place::<K>(all.take(i as int), key.deep_view(), rules) is None,
        decreases rows.len() - i,
    {
        proof {
            assert(all.take(i + 1).drop_last() =~= all.take(i as int));
            assert(rows@[i as int].0 < keys@.len());
            assert(all.take(i + 1).last() == keys@[rows@[i as int].0 as int].deep_view());
        }
        if keys[rows[i].0].same_key(key, rules) {
            proof {
                lemma_first_place_prefix::<K>(all, key.deep_view(), i + 1, rules);
            }
            return Some(i);
        }
        i = i + 1;
    }
    assert(all.take(all.len() as int) =~= all);
    None
}

/// The keys and scores that rows show.
#[verifier::loop_isolation(false)]
pub fn keys_shown<K: RowKey>(keys: &Vec<K>, rows: &Vec<(usize, i64)>) -> (shown: Vec<(K, i64)>)
    ensures
        shown.deep_view() == shown_keys(keys.deep_view(), rows@),
{
    let mut shown: Vec<(K, i64)> = Vec::new();
    let mut i: usize = 0;
    assert(shown.deep_view() =~= shown_keys(keys.deep_view(), rows@.take(0)));
    while i < rows.len()
        invariant
            i <= rows.len(),
            shown.deep_view() == shown_keys(keys.deep_view(), rows@.take(i as int)),
        decreases rows.len() - i,
    {
        let ghost before = shown.deep_view();
        proof {
            assert(rows@.take(i + 1).drop_last() =~= rows@.take(i as int));
            assert(rows@.take(i + 1).last() == rows@[i as int]);
        }
        let (index, score) = rows[i];
        if index < keys.len() {
            let pair = (keys[index].copy_key(), score);
            let ghost added = pair.deep_view();
            shown.push(pair);
            assert(shown.deep_view() =~= before.push(added));
        }
        i = i + 1;
    }
    assert(rows@.take(rows@.len() as int) =~= rows@);
    shown
}

/// Which item a list has selected.
pub fn selected_item(list: &SearchableList, count: usize) -> (index: Option<usize>)
    ensures
        match selected_index(list.deep_view(), count as nat) {
            Some(at) => index is Some && index->0 as int == at && at < count,
            None => index is None,
        },
{
    match list.selected {
        Some(selected) => if selected < list.filtered.len() && list.filtered[selected].0 < count {
            Some(list.filtered[selected].0)
        } else {
            None
        },
        None => None,
    }
}

/// Takes in the matches of a list.
pub fn apply_matches<K: RowKey>(
    list: &mut SearchableList,
    keys: &Vec<K>,
    scored: &Vec<(K, i64)>,
    requested: Option<&K>,
    rules: PathRules,
)
    ensures
        final(list).deep_view() == with_matches::<K>(
            old(list).deep_view(),
            keys.deep_view(),
            scored.deep_view(),
            requested.deep_view(),
            rules,
        ),
        rows_valid(final(list).filtered@, keys@.len()),
{
    let wanted: Option<&K> = match selected_item(list, keys.len()) {
        Some(index) => Some(&keys[index]),
        None => requested,
    };
    list.filtered = look_up_rows(keys, scored, rules);
    let position = find_position(keys, &list.filtered, wanted, rules);
    list.selected = match position {
        Some(at) => Some(at),
        None => if list.filtered.len() > 0 {
            Some(0)
        } else {
            None
        },
    };
    list.scroll_offset = 0;
}

/// What was selected stays selected when matches come back, as long as it is among them.
pub proof fn lemma_selection_survives_matches<K: RowKey>(
    list: SearchableListV,
    keys: Seq<K::V>,
    scored: Seq<(K::V, i64)>,
    requested: Option<K::V>,
    rules: PathRules,
)
    requires
        keys.len() <= usize::MAX,
        scored.len() <= usize::MAX,
        selected_key(list, keys) is Some,
        first_place::<K>(
            row_keys(keys, rows_of::<K>(keys, scored, rules)),
            selected_key(list, keys)->0,
            rules,
        ) is Some,
    ensures
        selected_key(with_matches::<K>(list, keys, scored, requested, rules), keys) is Some,
        K::same_view(
            selected_key(with_matches::<K>(list, keys, scored, requested, rules), keys)->0,
            selected_key(list, keys)->0,
            rules,
        ),
{
    let rows = rows_of::<K>(keys, scored, rules);
    lemma_rows_valid::<K>(keys, scored, rules);
    lemma_first_place::<K>(row_keys(keys, rows), selected_key(list, keys)->0, rules);
    let place = first_place::<K>(row_keys(keys, rows), selected_key(list, keys)->0, rules)->0;
    assert(rows[place].0 < keys.len());
}

/// A list with matches always has a row selected, and one without has none.
pub proof fn lemma_matches_select<K: RowKey>(
    list: SearchableListV,
    keys: Seq<K::V>,
    scored: Seq<(K::V, i64)>,
    requested: Option<K::V>,
    rules: PathRules,
)
    requires
        keys.len() <= usize::MAX,
        scored.len() <= usize::MAX,
    ensures
        ({
            let after = with_matches::<K>(list, keys, scored, requested, rules);
            if after.filtered.len() == 0 {
                after.selected is None
            } else {
                after.selected is Some && after.selected->0 < after.filtered.len()
            }
        }),
{
    let rows = rows_of::<K>(keys, scored, rules);
    lemma_rows_valid::<K>(keys, scored, rules);
    let current = selected_key(list, keys);
    let wanted = if current is Some {
        current
    } else {
        requested
    };
    if wanted is Some {
        lemma_first_place::<K>(row_keys(keys, rows), wanted->0, rules);
    }
}

/// A key that a list shows is among the keys that it shows.
pub proof fn lemma_shown_contains<V>(keys: Seq<V>, rows: Seq<(usize, i64)>, at: int)
    requires
        0 <= at < rows.len(),
        rows[at].0 < keys.len(),
    ensures
        shown_keys(keys, rows).contains((keys[rows[at].0 as int], rows[at].1)),
    decreases rows.len(),
{
    let before = shown_keys(keys, rows.drop_last());
    let wanted = (keys[rows[at].0 as int], rows[at].1);
    if at == rows.len() - 1 {
        assert(shown_keys(keys, rows)[before.len() as int] == wanted);
    } else {
        lemma_shown_contains(keys, rows.drop_last(), at);
        let place = choose|i: int| 0 <= i < before.len() && before[i] == wanted;
        assert(shown_keys(keys, rows)[place] == wanted);
    }
}

/// A key that is there has a row.
pub proof fn lemma_rows_contain<K: RowKey>(keys: Seq<K::V>, scored: Seq<(K::V, i64)>, at: int, rules: PathRules)
    requires
        0 <= at < scored.len(),
        last_place::<K>(keys, scored[at].0, rules) is Some,
    ensures
        rows_of::<K>(keys, scored, rules).contains(
            (last_place::<K>(keys, scored[at].0, rules)->0 as usize, scored[at].1),
        ),
    decreases scored.len(),
{
    let before = rows_of::<K>(keys, scored.drop_last(), rules);
    let wanted = (last_place::<K>(keys, scored[at].0, rules)->0 as usize, scored[at].1);
    if at == scored.len() - 1 {
        assert(rows_of::<K>(keys, scored, rules)[before.len() as int] == wanted);
    } else {
        lemma_rows_contain::<K>(keys, scored.drop_last(), at, rules);
        let place = choose|i: int| 0 <= i < before.len() && before[i] == wanted;
        assert(rows_of::<K>(keys, scored, rules)[place] == wanted);
    }
}

pub proof fn lemma_shown_len<V>(keys: Seq<V>, rows: Seq<(usize, i64)>)
    ensures
        shown_keys(keys, rows).len() <= rows.len(),
    decreases rows.len(),
{
    if rows.len() > 0 {
        lemma_shown_len(keys, rows.drop_last());
    }
}

/// Counts requests, so that a late answer is told from the awaited one; starts over at the
/// end of the range.
pub open spec fn next_generation(generation: u64) -> u64 {
    if generation == u64::MAX {
        0
    } else {
        (generation + 1) as u64
    }
}

pub fn advance(generation: u64) -> (next: u64)
    ensures
        next == next_generation(generation),
{
    if generation == u64::MAX {
        0
    } else {
        generation + 1
    }
}

} // verus!
