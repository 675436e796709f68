//! Fuzzy search.

use crate::effects::FilterItemV;
use crate::event::FilterKeyV;
use crate::fuzzy::{candidates, filtered, item_texts, lemma_matches_are_shown, lemma_ranked_candidates, lemma_ranked_rows_match, matched, rank_candidates, ranked, ranked_candidates, scored};
use crate::order::{not_after, rank_text, Rank};
use crate::text::byte_len;
use vstd::prelude::*;

verus! {

/// Whether a match may stand before another one: the better score first, then the shorter text,
/// then by the text.
pub open spec fn may_precede(
    first: (i64, Seq<char>),
    second: (i64, Seq<char>),
) -> bool {
    if first.0 != second.0 {
        first.0 > second.0
    } else if byte_len(first.1) != byte_len(second.1) {
        byte_len(first.1) < byte_len(second.1)
    } else {
        rank_text(first.1, second.1) != Rank::Greater
    }
}

/// The rows that a search shows stand in order: better matches first, shorter texts before
/// longer ones that match as well, and texts of one length by themselves.
pub proof fn lemma_better_matches_come_first(
    texts: Seq<Seq<char>>,
    query: Seq<char>,
    scores: Seq<Option<i64>>,
    i: int,
    j: int,
)
    requires
        texts.len() <= usize::MAX,
        query.len() > 0,
        scored(texts, query, scores),
        0 <= i < j < ranked(texts, query, scores).len(),
    ensures
        ({
            let rows = ranked(texts, query, scores);
            &&& rows[i].0 < texts.len()
            &&& rows[j].0 < texts.len()
            &&& may_precede(
                (rows[i].1, texts[rows[i].0 as int]),
                (rows[j].1, texts[rows[j].0 as int]),
            )
        }),
{
    let rows = ranked(texts, query, scores);
    let sorted = ranked_candidates(texts, scores);
    let places = lemma_ranked_candidates(texts, scores);
    let le = not_after(rank_candidates());
    lemma_ranked_rows_match(texts, query, scores);
    assert(rows[i].0 < texts.len());
    assert(rows[j].0 < texts.len());
    lemma_candidate_texts(texts, scores);
    assert(sorted[i] == candidates(texts, scores)[places[i]]);
    assert(sorted[j] == candidates(texts, scores)[places[j]]);
    assert(le(sorted[i], sorted[j]));
}

proof fn lemma_candidate_texts(texts: Seq<Seq<char>>, scores: Seq<Option<i64>>)
    requires
        texts.len() <= usize::MAX,
    ensures
        forall|k: int|
            0 <= k < candidates(texts, scores).len() ==> (#[trigger] candidates(
                texts,
                scores,
            )[k]).index < texts.len() && candidates(texts, scores)[k].text == texts[candidates(
                texts,
                scores,
            )[k].index as int],
    decreases texts.len(),
{
    if texts.len() > 0 {
        let before = texts.drop_last();
        let inner = candidates(before, scores);
        let all = candidates(texts, scores);
        lemma_candidate_texts(before, scores);
        assert forall|k: int| 0 <= k < all.len() implies (#[trigger] all[k]).index < texts.len()
            && all[k].text == texts[all[k].index as int] by {
            if k < inner.len() {
                assert(all[k] == inner[k]);
                assert(before[inner[k].index as int] == texts[inner[k].index as int]);
            }
        }
    }
}

/// No text is shown twice by a search.
pub proof fn lemma_no_text_is_shown_twice(
    texts: Seq<Seq<char>>,
    query: Seq<char>,
    scores: Seq<Option<i64>>,
    i: int,
    j: int,
)
    requires
        texts.len() <= usize::MAX,
        query.len() > 0,
        0 <= i < j < ranked(texts, query, scores).len(),
    ensures
        ranked(texts, query, scores)[i].0 != ranked(texts, query, scores)[j].0,
{
    let sorted = ranked_candidates(texts, scores);
    let places = lemma_ranked_candidates(texts, scores);
    lemma_candidate_indices(texts, scores);
    assert(sorted[i] == candidates(texts, scores)[places[i]]);
    assert(sorted[j] == candidates(texts, scores)[places[j]]);
    assert(places[i] != places[j]);
    if places[i] < places[j] {
        assert(candidates(texts, scores)[places[i]].index < candidates(
            texts,
            scores,
        )[places[j]].index);
    } else {
        assert(candidates(texts, scores)[places[j]].index < candidates(
            texts,
            scores,
        )[places[i]].index);
    }
}

proof fn lemma_candidate_indices(texts: Seq<Seq<char>>, scores: Seq<Option<i64>>)
    requires
        texts.len() <= usize::MAX,
    ensures
        forall|k: int|
            0 <= k < candidates(texts, scores).len() ==> (#[trigger] candidates(
                texts,
                scores,
            )[k]).index < texts.len(),
        forall|k: int, m: int|
            0 <= k < m < candidates(texts, scores).len() ==> (#[trigger] candidates(
                texts,
                scores,
            )[k]).index < (#[trigger] candidates(texts, scores)[m]).index,
    decreases texts.len(),
{
    if texts.len() > 0 {
        let before = texts.drop_last();
        let inner = candidates(before, scores);
        let all = candidates(texts, scores);
        lemma_candidate_indices(before, scores);
        assert forall|k: int| 0 <= k < inner.len() implies #[trigger] all[k] == inner[k] by {}
        assert forall|k: int, m: int| 0 <= k < m < all.len() implies (#[trigger] all[k]).index < (
        #[trigger] all[m]).index by {
            assert(all[k] == inner[k]);
            if m < inner.len() {
                assert(all[m] == inner[m]);
            }
        }
    }
}

/// The answer of a filter names the items that match, and no others, each under its own key; with
/// nothing searched for it names all of them in their order.
pub proof fn lemma_answer_names_the_items_that_match(
    items: Seq<FilterItemV>,
    query: Seq<char>,
    scores: Seq<Option<i64>>,
)
    requires
        items.len() <= usize::MAX,
        scored(item_texts(items), query, scores),
    ensures
        ({
            let answer = filtered(items, query, scores);
            &&& query.len() == 0 ==> answer.len() == items.len() && forall|i: int|
                0 <= i < items.len() ==> (#[trigger] answer[i]).0 == items[i].key
            &&& query.len() > 0 ==> forall|k: int|
                0 <= k < answer.len() ==> names_a_match(items, query, (#[trigger] answer[k]).0)
            &&& forall|i: int|
                0 <= i < items.len() && matched((#[trigger] items[i]).text, query) ==> is_named(
                    answer,
                    items[i].key,
                )
        }),
{
    let texts = item_texts(items);
    let rows = ranked(texts, query, scores);
    let answer = filtered(items, query, scores);
    if query.len() > 0 {
        lemma_ranked_rows_match(texts, query, scores);
        assert forall|k: int| 0 <= k < answer.len() implies names_a_match(
            items,
            query,
            (#[trigger] answer[k]).0,
        ) by {
            let at = rows[k].0 as int;
            assert(matched(texts[at], query));
            assert(items[at].text == texts[at]);
        }
    }
    assert forall|i: int|
        0 <= i < items.len() && matched((#[trigger] items[i]).text, query) implies is_named(
        answer,
        items[i].key,
    ) by {
        assert(texts[i] == items[i].text);
        lemma_matches_are_shown(texts, query, scores, i);
        let k = choose|k: int|
            0 <= k < ranked(texts, query, scores).len() && (#[trigger] ranked(
                texts,
                query,
                scores,
            )[k]).0 == i;
        assert(answer[k].0 == items[i].key);
    }
}

/// Whether a key is that of an item that matches.
pub open spec fn names_a_match(
    items: Seq<FilterItemV>,
    query: Seq<char>,
    key: FilterKeyV,
) -> bool {
    exists|i: int|
        0 <= i < items.len() && matched((#[trigger] items[i]).text, query) && items[i].key == key
}

/// Whether an answer names a key.
pub open spec fn is_named(answer: Seq<(FilterKeyV, i64)>, key: FilterKeyV) -> bool {
    exists|k: int| 0 <= k < answer.len() && (#[trigger] answer[k]).0 == key
}

} // verus!
