//! Lists: the row that is highlighted, and what a choice keeps.

use crate::input::SearchableListV;
use crate::path::PathRules;
use crate::rows::{first_place, lemma_first_place, lemma_last_place, row_keys, rows_of, selected_key, with_matches, RowKey};
use vstd::prelude::*;

verus! {

/// Whether a list highlights an item: the selected row is one that is shown, and shows it.
pub open spec fn highlights(list: SearchableListV, item: int) -> bool {
    list.selected matches Some(row) && row < list.filtered.len() && list.filtered[row as int].0
        == item
}

/// Whether an item is one of the rows that a list shows.
pub open spec fn shows(list: SearchableListV, item: int) -> bool {
    exists|row: int|
        0 <= row < list.filtered.len() && (#[trigger] list.filtered[row]).0 == item
}

/// What is highlighted is shown, and nothing else is highlighted.
pub proof fn lemma_highlighted_is_shown(list: SearchableListV, item: int, other: int)
    requires
        highlights(list, item),
    ensures
        shows(list, item),
        highlights(list, other) ==> other == item,
{
    assert(list.filtered[list.selected->0 as int].0 == item);
}

/// A choice made from the end of a sequence is the choice of the same elements.
pub proof fn lemma_filter_step<T>(all: Seq<T>, keep: spec_fn(T) -> bool)
    ensures
        all.len() == 0 ==> all.filter(keep) == Seq::<T>::empty(),
        all.len() > 0 ==> all.filter(keep) == (if keep(all.last()) {
            all.drop_last().filter(keep).push(all.last())
        } else {
            all.drop_last().filter(keep)
        }),
{
    reveal(Seq::filter);
}

/// What a choice holds: the elements that it keeps, and no others.
pub proof fn lemma_filter_holds<T>(all: Seq<T>, keep: spec_fn(T) -> bool)
    ensures
        forall|i: int|
            0 <= i < all.filter(keep).len() ==> keep(#[trigger] all.filter(keep)[i])
                && all.contains(all.filter(keep)[i]),
        forall|i: int|
            0 <= i < all.len() && keep(#[trigger] all[i]) ==> all.filter(keep).contains(all[i]),
    decreases all.len(),
{
    lemma_filter_step(all, keep);
    let kept = all.filter(keep);
    if all.len() > 0 {
        let before = all.drop_last();
        let inner = before.filter(keep);
        lemma_filter_holds(before, keep);
        assert forall|i: int| 0 <= i < kept.len() implies keep(#[trigger] kept[i])
            && all.contains(kept[i]) by {
            if i < inner.len() {
                assert(kept[i] == inner[i]);
                let k = choose|k: int| 0 <= k < before.len() && before[k] == inner[i];
                assert(all[k] == kept[i]);
            } else {
                assert(all[all.len() - 1] == kept[i]);
            }
        }
        assert forall|i: int| 0 <= i < all.len() && keep(#[trigger] all[i]) implies kept.contains(
            all[i],
        ) by {
            if i < before.len() {
                assert(before[i] == all[i]);
                assert(inner.contains(before[i]));
                let k = choose|k: int| 0 <= k < inner.len() && inner[k] == before[i];
                assert(kept[k] == all[i]);
            } else {
                assert(kept[kept.len() - 1] == all[i]);
            }
        }
    }
}

/// The answer of a filter becomes the rows of a list, in its order and with its scores; what is
/// not in the list has no row.
pub proof fn lemma_answers_become_rows<K: RowKey>(
    keys: Seq<K::V>,
    scored: Seq<(K::V, i64)>,
    rules: PathRules,
)
    requires
        keys.len() <= usize::MAX,
    ensures
        ({
            let rows = rows_of::<K>(keys, scored, rules);
            &&& rows.len() <= scored.len()
            &&& forall|r: int|
                0 <= r < rows.len() ==> (#[trigger] rows[r]).0 < keys.len() && exists|m: int|
                    0 <= m < scored.len() && K::same_view(
                        keys[rows[r].0 as int],
                        (#[trigger] scored[m]).0,
                        rules,
                    ) && rows[r].1 == scored[m].1
            &&& (forall|m: int|
                0 <= m < scored.len() ==> exists|k: int|
                    0 <= k < keys.len() && K::same_view(
                        #[trigger] keys[k],
                        (#[trigger] scored[m]).0,
                        rules,
                    )) ==> rows.len() == scored.len() && forall|m: int|
                0 <= m < scored.len() ==> K::same_view(
                    keys[(#[trigger] rows[m]).0 as int],
                    scored[m].0,
                    rules,
                ) && rows[m].1 == scored[m].1
        }),
    decreases scored.len(),
{
    let rows = rows_of::<K>(keys, scored, rules);
    if scored.len() > 0 {
        let before = scored.drop_last();
        let inner = rows_of::<K>(keys, before, rules);
        lemma_answers_become_rows::<K>(keys, before, rules);
        lemma_last_place::<K>(keys, scored.last().0, rules);
        assert forall|r: int| 0 <= r < rows.len() implies (#[trigger] rows[r]).0 < keys.len()
            && exists|m: int|
            0 <= m < scored.len() && K::same_view(
                keys[rows[r].0 as int],
                (#[trigger] scored[m]).0,
                rules,
            ) && rows[r].1 == scored[m].1 by {
            if r < inner.len() {
                assert(rows[r] == inner[r]);
                let m = choose|m: int|
                    0 <= m < before.len() && K::same_view(
                        keys[inner[r].0 as int],
                        (#[trigger] before[m]).0,
                        rules,
                    ) && inner[r].1 == before[m].1;
                assert(scored[m] == before[m]);
            } else {
                assert(scored[scored.len() - 1].1 == rows[r].1);
            }
        }
        if forall|m: int|
            0 <= m < scored.len() ==> exists|k: int|
                0 <= k < keys.len() && K::same_view(
                    #[trigger] keys[k],
                    (#[trigger] scored[m]).0,
                    rules,
                ) {
            assert forall|m: int| 0 <= m < before.len() implies exists|k: int|
                0 <= k < keys.len() && K::same_view(
                    #[trigger] keys[k],
                    (#[trigger] before[m]).0,
                    rules,
                ) by {
                assert(before[m] == scored[m]);
                let k = choose|k: int|
                    0 <= k < keys.len() && K::same_view(#[trigger] keys[k], scored[m].0, rules);
                assert(K::same_view(keys[k], before[m].0, rules));
            }
            let last = scored[scored.len() - 1];
            let k = choose|k: int|
                0 <= k < keys.len() && K::same_view(#[trigger] keys[k], last.0, rules);
            assert(K::same_view(keys[k], last.0, rules));
            assert forall|m: int| 0 <= m < scored.len() implies K::same_view(
                keys[(#[trigger] rows[m]).0 as int],
                scored[m].0,
                rules,
            ) && rows[m].1 == scored[m].1 by {
                if m < before.len() {
                    assert(rows[m] == inner[m]);
                    assert(before[m] == scored[m]);
                }
            }
        }
    }
}

/// When the answer of a filter comes in, what is typed stays and what was highlighted stays
/// highlighted where it is among the rows; where nothing was, what was asked for is highlighted.
/// Else the first row is, and the list starts at its top.
pub proof fn lemma_answer_keeps_the_highlight<K: RowKey>(
    list: SearchableListV,
    keys: Seq<K::V>,
    scored: Seq<(K::V, i64)>,
    requested: Option<K::V>,
    rules: PathRules,
    wanted: Option<K::V>,
)
    requires
        keys.len() <= usize::MAX,
        scored.len() <= usize::MAX,
        match wanted {
            Some(key) => (exists|item: int|
                0 <= item < keys.len() && #[trigger] highlights(list, item) && key == keys[item])
                || (requested == Some(key) && forall|item: int|
                0 <= item < keys.len() ==> !#[trigger] highlights(list, item)),
            None => requested is None && forall|item: int|
                0 <= item < keys.len() ==> !#[trigger] highlights(list, item),
        },
    ensures
        ({
            let after = with_matches::<K>(list, keys, scored, requested, rules);
            let rows = rows_of::<K>(keys, scored, rules);
            let there = wanted is Some && exists|r: int|
                0 <= r < rows.len() && K::same_view(
                    keys[(#[trigger] rows[r]).0 as int],
                    wanted->0,
                    rules,
                );
            &&& after.filtered == rows
            &&& after.input == list.input
            &&& after.scroll_offset == 0
            &&& rows.len() == 0 ==> after.selected is None
            &&& rows.len() > 0 && there ==> exists|item: int|
                0 <= item < keys.len() && #[trigger] highlights(after, item) && K::same_view(
                    keys[item],
                    wanted->0,
                    rules,
                )
            &&& rows.len() > 0 && !there ==> after.selected == Some(0usize)
        }),
{
    let rows = rows_of::<K>(keys, scored, rules);
    lemma_answers_become_rows::<K>(keys, scored, rules);
    if list.selected is Some && list.selected->0 < list.filtered.len() {
        let item = list.filtered[list.selected->0 as int].0 as int;
        assert(highlights(list, item));
    }
    assert(wanted == (if selected_key(list, keys) is Some {
        selected_key(list, keys)
    } else {
        requested
    }));
    if wanted is Some {
        let shown = row_keys(keys, rows);
        lemma_first_place::<K>(shown, wanted->0, rules);
        match first_place::<K>(shown, wanted->0, rules) {
            Some(place) => {
                let after = with_matches::<K>(list, keys, scored, requested, rules);
                let item = rows[place].0 as int;
                assert(shown[place] == keys[item]);
                assert(highlights(after, item));
            },
            None => {
                assert forall|r: int| 0 <= r < rows.len() implies !K::same_view(
                    keys[(#[trigger] rows[r]).0 as int],
                    wanted->0,
                    rules,
                ) by {
                    assert(shown[r] == keys[rows[r].0 as int]);
                }
            },
        }
    }
}

/// Moving down or up by one highlights the next or the previous row, and stays at either end;
/// what is shown and typed stays.
pub proof fn lemma_moving_highlights_the_next_row(list: SearchableListV, row: int)
    requires
        list.selected == Some(row as usize),
        0 <= row < list.filtered.len() <= usize::MAX,
    ensures
        list.moved(1).filtered == list.filtered,
        list.moved(1).input == list.input,
        list.moved(-1).filtered == list.filtered,
        list.moved(-1).input == list.input,
        row + 1 < list.filtered.len() ==> list.moved(1).selected == Some((row + 1) as usize),
        row + 1 == list.filtered.len() ==> list.moved(1).selected == Some(row as usize),
        row > 0 ==> list.moved(-1).selected == Some((row - 1) as usize),
        row == 0 ==> list.moved(-1).selected == Some(0usize),
{
}

/// Moving down and up again comes back to the row, unless it is the last one; by however many
/// rows, the selection is never outside of the list.
pub proof fn lemma_moves_stay_inside(list: SearchableListV, delta: int)
    requires
        0 < list.filtered.len() <= usize::MAX,
        list.selected matches Some(row) ==> row < list.filtered.len(),
    ensures
        list.moved(delta).selected is Some,
        list.moved(delta).selected->0 < list.filtered.len(),
        list.moved(delta).scroll_offset == list.scroll_offset,
        list.selected is Some && 0 <= delta && list.selected->0 + delta < list.filtered.len()
            ==> list.moved(delta).moved(-delta).selected == list.selected,
{
}

} // verus!
