//! The help.

use crate::app::{help_filtered, help_matches, help_refiltered, last_score, position_of_row};
use crate::event::{FilterKeyV, FilterTarget};
use crate::laws::lists::{highlights, shows};
use crate::state::HelpOverlayV;
use vstd::prelude::*;
use vstd::string::*;

verus! {

/// Whether an answer names a row of the help.
pub open spec fn answers(matches: Seq<(FilterKeyV, i64)>, row: int) -> bool {
    exists|i: int|
        0 <= i < matches.len() && (#[trigger] matches[i]).0 is Help && matches[i].0->Help_0 == row
}

proof fn lemma_last_score(matches: Seq<(FilterKeyV, i64)>, index: usize)
    ensures
        last_score(matches, index) is Some <==> answers(matches, index as int),
    decreases matches.len(),
{
    if matches.len() > 0 {
        let before = matches.drop_last();
        lemma_last_score(before, index);
        assert(matches[matches.len() - 1] == matches.last());
        if answers(before, index as int) {
            let i = choose|i: int|
                0 <= i < before.len() && (#[trigger] before[i]).0 is Help && before[i].0->Help_0
                    == index;
            assert(matches[i] == before[i]);
        }
        if answers(matches, index as int) && matches.last().0 != FilterKeyV::Help(index) {
            let i = choose|i: int|
                0 <= i < matches.len() && (#[trigger] matches[i]).0 is Help && matches[i].0->Help_0
                    == index;
            assert(before[i] == matches[i]);
        }
    }
}

/// Whether a row is among some rows.
pub open spec fn is_row(rows: Seq<(usize, i64)>, row: int) -> bool {
    exists|place: int| 0 <= place < rows.len() && (#[trigger] rows[place]).0 == row
}

proof fn lemma_help_matches(matches: Seq<(FilterKeyV, i64)>, count: nat)
    requires
        count <= usize::MAX,
    ensures
        forall|place: int|
            0 <= place < help_matches(matches, count).len() ==> (#[trigger] help_matches(
                matches,
                count,
            )[place]).0 < count && answers(matches, help_matches(matches, count)[place].0 as int),
        forall|row: int|
            0 <= row < count && #[trigger] answers(matches, row) ==> is_row(
                help_matches(matches, count),
                row,
            ),
        forall|i: int, j: int|
            0 <= i < j < help_matches(matches, count).len() ==> (#[trigger] help_matches(
                matches,
                count,
            )[i]).0 < (#[trigger] help_matches(matches, count)[j]).0,
        help_matches(matches, count).len() <= count,
    decreases count,
{
    if count > 0 {
        let fewer = (count - 1) as nat;
        let before = help_matches(matches, fewer);
        let rows = help_matches(matches, count);
        lemma_help_matches(matches, fewer);
        lemma_last_score(matches, fewer as usize);
        assert forall|place: int| 0 <= place < before.len() implies #[trigger] rows[place]
            == before[place] by {}
        assert forall|row: int| 0 <= row < count && #[trigger] answers(
            matches,
            row,
        ) implies is_row(rows, row) by {
            if row < fewer {
                let place = choose|place: int|
                    0 <= place < before.len() && (#[trigger] before[place]).0 == row;
                assert(rows[place].0 == row);
            } else {
                assert(rows[rows.len() - 1].0 == row);
            }
        }
    }
}

/// The rows that the help shows after a search are those that match, in the order of the help.
pub proof fn lemma_help_shows_what_matches(
    help: HelpOverlayV,
    matches: Seq<(FilterKeyV, i64)>,
    selected: Option<FilterKeyV>,
)
    requires
        help.rows.len() <= usize::MAX,
    ensures
        ({
            let list = help_filtered(help, matches, selected).list;
            &&& forall|row: int|
                #![trigger answers(matches, row)]
                0 <= row < help.rows.len() ==> (shows(list, row) <==> answers(matches, row))
            &&& forall|i: int, j: int|
                0 <= i < j < list.filtered.len() ==> (#[trigger] list.filtered[i]).0 < (
                #[trigger] list.filtered[j]).0
            &&& forall|i: int|
                0 <= i < list.filtered.len() ==> (#[trigger] list.filtered[i]).0 < help.rows.len()
        }),
        help_filtered(help, matches, selected).rows == help.rows,
        help_filtered(help, matches, selected).list.input == help.list.input,
{
    let list = help_filtered(help, matches, selected).list;
    lemma_help_matches(matches, help.rows.len());
    assert forall|row: int|
        #![trigger answers(matches, row)]
        0 <= row < help.rows.len() implies (shows(list, row) <==> answers(matches, row)) by {
        if answers(matches, row) {
            let place = choose|place: int|
                0 <= place < list.filtered.len() && (#[trigger] list.filtered[place]).0 == row;
            assert(list.filtered[place].0 == row);
        }
        if shows(list, row) {
            let place = choose|place: int|
                0 <= place < list.filtered.len() && (#[trigger] list.filtered[place]).0 == row;
            assert(answers(matches, list.filtered[place].0 as int));
        }
    }
}

proof fn lemma_position_of_row(rows: Seq<(usize, i64)>, index: usize)
    requires
        rows.len() <= usize::MAX,
    ensures
        position_of_row(rows, index) is Some <==> is_row(rows, index as int),
        position_of_row(rows, index) matches Some(place) ==> place < rows.len()
            && rows[place as int].0 == index,
    decreases rows.len(),
{
    if rows.len() > 0 {
        let before = rows.drop_last();
        lemma_position_of_row(before, index);
        assert(rows[rows.len() - 1] == rows.last());
        if is_row(rows, index as int) && rows.last().0 != index {
            let place = choose|place: int|
                0 <= place < rows.len() && (#[trigger] rows[place]).0 == index;
            assert(before[place].0 == index);
        }
    }
}

/// A search in the help keeps the highlighted row while it matches; else the first row that
/// matches is highlighted.
pub proof fn lemma_help_keeps_the_highlight(
    help: HelpOverlayV,
    matches: Seq<(FilterKeyV, i64)>,
    selected: Option<FilterKeyV>,
    row: int,
)
    requires
        help.rows.len() <= usize::MAX,
        highlights(help.list, row),
        0 <= row < help.rows.len(),
    ensures
        ({
            let list = help_filtered(help, matches, selected).list;
            &&& answers(matches, row) ==> highlights(list, row)
            &&& !answers(matches, row) && list.filtered.len() > 0 ==> list.selected == Some(0usize)
            &&& list.filtered.len() == 0 ==> list.selected is None
        }),
{
    let list = help_filtered(help, matches, selected).list;
    lemma_help_matches(matches, help.rows.len());
    lemma_position_of_row(list.filtered, row as usize);
    if is_row(list.filtered, row) {
        let place = choose|place: int|
            0 <= place < list.filtered.len() && (#[trigger] list.filtered[place]).0 == row;
        assert(answers(matches, list.filtered[place].0 as int));
    }
}

/// With nothing searched for the help shows all of its rows and highlights the first; else each
/// row is searched by what it shows, under its own number.
pub proof fn lemma_help_is_searched_by_its_rows(help: HelpOverlayV, generation: u64)
    requires
        help.rows.len() <= usize::MAX,
    ensures
        ({
            let (after, request) = help_refiltered(help, generation);
            &&& after.rows == help.rows
            &&& after.list.input == help.list.input
            &&& help.list.input.text.len() == 0 ==> request is None && after.list.filtered.len()
                == help.rows.len() && (forall|row: int|
                0 <= row < help.rows.len() ==> (#[trigger] after.list.filtered[row]).0 == row) && (
            help.rows.len() > 0 ==> highlights(after.list, 0))
            &&& help.list.input.text.len() > 0 ==> after == help && {
                &&& request is Some
                &&& request->0.target == FilterTarget::Help
                &&& request->0.generation == generation
                &&& request->0.query == help.list.input.text
                &&& request->0.items.len() == help.rows.len()
                &&& forall|row: int|
                    0 <= row < help.rows.len() ==> (#[trigger] request->0.items[row]).key
                        == FilterKeyV::Help(row as usize)
                &&& forall|row: int|
                    0 <= row < help.rows.len() ==> (#[trigger] request->0.items[row]).text
                        == help.rows[row].key_display + " "@ + help.rows[row].command_name + " "@
                        + help.rows[row].description
            }
        }),
{
}

} // verus!
