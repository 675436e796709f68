//! Fuzzy search: which texts match a query, the best match first.

use crate::effects::{FilterItem, FilterItemV, FilterRequest};
use crate::event::{AppEvent, FilterKey, FilterKeyV};
use crate::input::{all_rows, every_row};
use crate::order::{by_key, chained, compare_text, consistent, in_order, lemma_by_key_consistent, lemma_chained_consistent, lemma_consistent_total, lemma_rank_int_consistent, lemma_rank_text_consistent, lemma_sort_map, lemma_stable_sort, not_after, rank_int, rank_text, rank_u64, stable_rearrangement, stable_sort, stable_sorted, Rank};
use crate::text::{ascii_lowered, ascii_upper, byte_len, length};
use fuzzy_matcher::skim::SkimMatcherV2;
use fuzzy_matcher::FuzzyMatcher;
use vstd::prelude::*;
use vstd::set_lib::{lemma_int_range, lemma_subset_equality, set_int_range};

verus! {

/// The matcher of the outside crate. Nothing is known of what is inside.
#[verifier::external_type_specification]
#[verifier::external_body]
pub struct ExSkimMatcherV2(SkimMatcherV2);

/// A matcher with the default settings. One matcher serves many texts: it keeps the cells
/// that it has worked on and starts from them the next time.
pub struct Matcher {
    skim: SkimMatcherV2,
}

/// `SkimMatcherV2::default`.
#[verifier::external_body]
fn default_matcher() -> SkimMatcherV2 {
    SkimMatcherV2::default()
}

impl Default for Matcher {
    fn default() -> Self {
        Matcher { skim: default_matcher() }
    }
}

/// Whether a query is written with an ASCII capital, which makes capitals count.
pub open spec fn capitals_count(query: Seq<char>) -> bool {
    exists|i: int| 0 <= i < query.len() && ascii_upper(#[trigger] query[i])
}

/// Whether a character of a text answers one of a query.
pub open spec fn answers(c: char, wanted: char, exact: bool) -> bool {
    c == wanted || (!exact && ascii_lowered(c) == ascii_lowered(wanted))
}

/// Whether the characters of a query occur in a text in their order.
pub open spec fn occurs(text: Seq<char>, query: Seq<char>, exact: bool) -> bool
    decreases text.len(),
{
    if query.len() == 0 {
        true
    } else if text.len() == 0 {
        false
    } else if answers(text[0], query[0], exact) {
        occurs(text.drop_first(), query.drop_first(), exact)
    } else {
        occurs(text.drop_first(), query, exact)
    }
}

/// Whether a text matches a query.
pub open spec fn matched(text: Seq<char>, query: Seq<char>) -> bool {
    occurs(text, query, capitals_count(query))
}

/// `SkimMatcherV2::fuzzy_match` of a matcher with the default settings: a text has a score
/// where the characters of the query occur in it in their order, letter case counting where
/// the query has an ASCII capital. What the score is rests on the cells that the matcher
/// kept from the texts before, and is left unsaid.
#[verifier::external_body]
fn fuzzy_score(matcher: &Matcher, text: &str, query: &str) -> (score: Option<i64>)
    ensures
        score is Some <==> matched(text@, query@),
        query@.len() == 0 ==> score == Some(0i64),
{
    matcher.skim.fuzzy_match(text, query)
}

/// Scores that a matcher may give to texts: one for each text that matches.
pub open spec fn scored(
    texts: Seq<Seq<char>>,
    query: Seq<char>,
    scores: Seq<Option<i64>>,
) -> bool {
    &&& scores.len() == texts.len()
    &&& forall|i: int|
        0 <= i < texts.len() ==> ((#[trigger] scores[i]) is Some <==> matched(texts[i], query))
}

/// A text that matches.
#[derive(Debug, PartialEq, Eq)]
pub struct Candidate {
    pub index: usize,
    pub score: i64,
    pub text: String,
}

#[verifier::ext_equal]
pub struct CandidateV {
    pub index: usize,
    pub score: i64,
    pub text: Seq<char>,
}

impl DeepView for Candidate {
    type V = CandidateV;

    open spec fn deep_view(&self) -> CandidateV {
        CandidateV { index: self.index, score: self.score, text: self.text@ }
    }
}

/// The texts that match, in their order.
pub open spec fn candidates(texts: Seq<Seq<char>>, scores: Seq<Option<i64>>) -> Seq<CandidateV>
    decreases texts.len(),
{
    if texts.len() == 0 {
        Seq::empty()
    } else {
        let before = candidates(texts.drop_last(), scores);
        match scores[texts.len() - 1] {
            Some(score) => before.push(
                CandidateV { index: (texts.len() - 1) as usize, score, text: texts.last() },
            ),
            None => before,
        }
    }
}

/// Order of matches: the best score first, then the shorter text, then by text.
pub open spec fn rank_candidates() -> spec_fn(CandidateV, CandidateV) -> Rank {
    |a: CandidateV, b: CandidateV|
        rank_int(b.score as int, a.score as int).or_else_spec(
            rank_int(byte_len(a.text) as int, byte_len(b.text) as int).or_else_spec(
                rank_text(a.text, b.text),
            ),
        )
}

pub open spec fn ranked_candidates(texts: Seq<Seq<char>>, scores: Seq<Option<i64>>) -> Seq<
    CandidateV,
> {
    stable_sorted(candidates(texts, scores), not_after(rank_candidates()))
}

/// The rows that a query shows: all of them where it is empty, else those that have a
/// score, the best match first.
pub open spec fn ranked(
    texts: Seq<Seq<char>>,
    query: Seq<char>,
    scores: Seq<Option<i64>>,
) -> Seq<(usize, i64)> {
    if query.len() == 0 {
        all_rows(texts.len())
    } else {
        ranked_candidates(texts, scores).map_values(|found: CandidateV| (found.index, found.score))
    }
}

proof fn lemma_rank_candidates_consistent()
    ensures
        consistent(rank_candidates()),
{
    lemma_rank_int_consistent();
    lemma_rank_text_consistent();
    let number = |a: int, b: int| rank_int(a, b);
    let text = |a: Seq<char>, b: Seq<char>| rank_text(a, b);
    let k1 = |c: CandidateV| -(c.score as int);
    let k2 = |c: CandidateV| byte_len(c.text) as int;
    let k3 = |c: CandidateV| c.text;
    lemma_by_key_consistent(number, k1);
    lemma_by_key_consistent(number, k2);
    lemma_by_key_consistent(text, k3);
    let c2 = chained(by_key(number, k2), by_key(text, k3));
    lemma_chained_consistent(by_key(number, k2), by_key(text, k3));
    let c1 = chained(by_key(number, k1), c2);
    lemma_chained_consistent(by_key(number, k1), c2);
    assert(c1 =~= rank_candidates());
}

/// The matches of a query are in order, and none is lost or made up.
pub proof fn lemma_ranked_candidates(texts: Seq<Seq<char>>, scores: Seq<Option<i64>>) -> (places:
    Seq<int>)
    ensures
        in_order(ranked_candidates(texts, scores), not_after(rank_candidates())),
        stable_rearrangement(
            candidates(texts, scores),
            ranked_candidates(texts, scores),
            not_after(rank_candidates()),
            places,
        ),
{
    lemma_rank_candidates_consistent();
    lemma_consistent_total(rank_candidates());
    lemma_stable_sort(candidates(texts, scores), not_after(rank_candidates()))
}

proof fn lemma_candidates_match(texts: Seq<Seq<char>>, scores: Seq<Option<i64>>)
    requires
        texts.len() <= usize::MAX,
    ensures
        candidates(texts, scores).len() <= texts.len(),
        forall|i: int|
            0 <= i < candidates(texts, scores).len() ==> {
                let found = #[trigger] candidates(texts, scores)[i];
                found.index < texts.len() && texts[found.index as int] == found.text
                    && scores[found.index as int] == Some(found.score)
            },
    decreases texts.len(),
{
    if texts.len() > 0 {
        lemma_candidates_match(texts.drop_last(), scores);
        let before = candidates(texts.drop_last(), scores);
        let all = candidates(texts, scores);
        assert forall|i: int| 0 <= i < all.len() implies {
            let found = #[trigger] all[i];
            found.index < texts.len() && texts[found.index as int] == found.text
                && scores[found.index as int] == Some(found.score)
        } by {
            if i < before.len() {
                assert(all[i] == before[i]);
                assert(texts.drop_last()[before[i].index as int] == before[i].text);
            }
        }
    }
}

/// A text with a score is among the candidates.
proof fn lemma_candidates_hold(texts: Seq<Seq<char>>, scores: Seq<Option<i64>>, index: int) -> (at:
    int)
    requires
        texts.len() <= usize::MAX,
        0 <= index < texts.len(),
        scores[index] is Some,
    ensures
        0 <= at < candidates(texts, scores).len(),
        candidates(texts, scores)[at].index == index,
    decreases texts.len(),
{
    let before = candidates(texts.drop_last(), scores);
    if index == texts.len() - 1 {
        before.len() as int
    } else {
        let at = lemma_candidates_hold(texts.drop_last(), scores, index);
        assert(candidates(texts, scores)[at] == before[at]);
        at
    }
}

/// The sequence of places is onto: each place of the unsorted sequence has one in the sorted.
proof fn lemma_places_onto(places: Seq<int>, place: int) -> (at: int)
    requires
        forall|i: int| 0 <= i < places.len() ==> 0 <= #[trigger] places[i] < places.len(),
        forall|i: int, j: int|
            0 <= i < j < places.len() ==> #[trigger] places[i] != #[trigger] places[j],
        0 <= place < places.len(),
    ensures
        0 <= at < places.len(),
        places[at] == place,
{
    places.unique_seq_to_set();
    let all = set_int_range(0, places.len() as int);
    lemma_int_range(0, places.len() as int);
    assert forall|value: int| places.to_set().contains(value) implies all.contains(value) by {
        let at = choose|at: int| 0 <= at < places.len() && places[at] == value;
        assert(0 <= places[at] < places.len());
    }
    lemma_subset_equality(places.to_set(), all);
    assert(all.contains(place));
    assert(places.contains(place));
    choose|at: int| 0 <= at < places.len() && places[at] == place
}

/// Every row that a query shows is a text that matches it, with its score.
pub proof fn lemma_ranked_rows_match(
    texts: Seq<Seq<char>>,
    query: Seq<char>,
    scores: Seq<Option<i64>>,
)
    requires
        texts.len() <= usize::MAX,
        query.len() > 0,
        scored(texts, query, scores),
    ensures
        forall|i: int|
            0 <= i < ranked(texts, query, scores).len() ==> {
                let row = #[trigger] ranked(texts, query, scores)[i];
                row.0 < texts.len() && matched(texts[row.0 as int], query) && scores[row.0 as int]
                    == Some(row.1)
            },
{
    lemma_candidates_match(texts, scores);
    let places = lemma_ranked_candidates(texts, scores);
    let sorted = ranked_candidates(texts, scores);
    assert forall|i: int| 0 <= i < ranked(texts, query, scores).len() implies {
        let row = #[trigger] ranked(texts, query, scores)[i];
        row.0 < texts.len() && matched(texts[row.0 as int], query) && scores[row.0 as int] == Some(
            row.1,
        )
    } by {
        assert(sorted[i] == candidates(texts, scores)[places[i]]);
        assert(scores[sorted[i].index as int] is Some);
    }
}

/// Every text that matches a query is a row that it shows.
pub proof fn lemma_matches_are_shown(
    texts: Seq<Seq<char>>,
    query: Seq<char>,
    scores: Seq<Option<i64>>,
    index: int,
)
    requires
        texts.len() <= usize::MAX,
        scored(texts, query, scores),
        0 <= index < texts.len(),
        matched(texts[index], query),
    ensures
        exists|i: int|
            0 <= i < ranked(texts, query, scores).len() && (#[trigger] ranked(
                texts,
                query,
                scores,
            )[i]).0 == index,
{
    let rows = ranked(texts, query, scores);
    if query.len() == 0 {
        assert(rows[index].0 == index);
    } else {
        assert(scores[index] is Some);
        let place = lemma_candidates_hold(texts, scores, index);
        let places = lemma_ranked_candidates(texts, scores);
        let at = lemma_places_onto(places, place);
        assert(ranked_candidates(texts, scores)[at] == candidates(texts, scores)[place]);
        assert(rows[at].0 == index);
    }
}

fn compare_candidates(left: &Candidate, right: &Candidate) -> (result: Rank)
    ensures
        result == rank_candidates()(left.deep_view(), right.deep_view()),
{
    let by_score = if right.score < left.score {
        Rank::Less
    } else if right.score == left.score {
        Rank::Equal
    } else {
        Rank::Greater
    };
    let by_length = rank_u64(length(left.text.as_str()) as u64, length(right.text.as_str()) as u64);
    let by_text = compare_text(left.text.as_str(), right.text.as_str());
    by_score.or_else(by_length.or_else(by_text))
}

/// The matches, the best one first.
pub fn sort_candidates(found: Vec<Candidate>) -> (sorted: Vec<Candidate>)
    ensures
        sorted.deep_view() == stable_sorted(found.deep_view(), not_after(rank_candidates())),
{
    let ghost order = |a: Candidate, b: Candidate|
        not_after(rank_candidates())(a.deep_view(), b.deep_view());
    let ghost before = found@;
    let ghost image = |c: Candidate| c.deep_view();
    let le = |a: &Candidate, b: &Candidate| -> (answer: bool)
        ensures
            answer == order(*a, *b),
    {
        let rank = compare_candidates(a, b);
        rank != Rank::Greater
    };
    let sorted = stable_sort(found, le, Ghost(order));
    proof {
        lemma_sort_map(before, order, image, not_after(rank_candidates()));
        assert(before.map_values(image) =~= found.deep_view());
        assert(sorted@.map_values(image) =~= sorted.deep_view());
    }
    sorted
}

/// The rows that a query shows, the best match first, where the scores are known.
#[verifier::loop_isolation(false)]
pub fn rank_scored(query: &str, texts: &Vec<String>, scores: &Vec<Option<i64>>) -> (rows: Vec<
    (usize, i64),
>)
    requires
        scores@.len() == texts@.len(),
    ensures
        rows@ == ranked(texts.deep_view(), query@, scores@),
{
    if query.is_empty() {
        return every_row(texts.len());
    }
    let ghost all = texts.deep_view();
    let mut found: Vec<Candidate> = Vec::new();
    let mut i: usize = 0;
    assert(found.deep_view() =~= candidates(all.take(0), scores@));
    while i < texts.len()
        invariant
            i <= texts.len(),
            found.deep_view() == candidates(all.take(i as int), scores@),
        decreases texts.len() - i,
    {
        let ghost before = found.deep_view();
        proof {
            assert(all.take(i + 1).drop_last() =~= all.take(i as int));
            assert(all.take(i + 1).last() == texts@[i as int]@);
        }
        match scores[i] {
            Some(score) => {
                let candidate = Candidate { index: i, score, text: texts[i].clone() };
                let ghost added = candidate.deep_view();
                found.push(candidate);
                assert(found.deep_view() =~= before.push(added));
            },
            None => {},
        }
        i = i + 1;
    }
    assert(all.take(all.len() as int) =~= all);
    let sorted = sort_candidates(found);
    let ghost wanted = ranked(all, query@, scores@);
    let mut rows: Vec<(usize, i64)> = Vec::new();
    let mut k: usize = 0;
    while k < sorted.len()
        invariant
            k <= sorted.len(),
            rows@.len() == k,
            forall|j: int| 0 <= j < k ==> (#[trigger] rows@[j]) == wanted[j],
        decreases sorted.len() - k,
    {
        let row = (sorted[k].index, sorted[k].score);
        assert(sorted.deep_view()[k as int] == sorted@[k as int].deep_view());
        assert(row == wanted[k as int]);
        rows.push(row);
        k = k + 1;
    }
    assert(rows@ =~= wanted);
    rows
}

/// The scores of texts, in their order.
#[verifier::loop_isolation(false)]
fn score_all(query: &str, texts: &Vec<String>, matcher: &Matcher) -> (scores: Vec<Option<i64>>)
    ensures
        scored(texts.deep_view(), query@, scores@),
{
    let mut scores: Vec<Option<i64>> = Vec::new();
    let mut i: usize = 0;
    while i < texts.len()
        invariant
            i <= texts.len(),
            scores@.len() == i,
            forall|k: int|
                0 <= k < i ==> ((#[trigger] scores@[k]) is Some <==> matched(
                    texts.deep_view()[k],
                    query@,
                )),
        decreases texts.len() - i,
    {
        assert(texts.deep_view()[i as int] == texts@[i as int]@);
        scores.push(fuzzy_score(matcher, texts[i].as_str(), query));
        i = i + 1;
    }
    scores
}

/// The rows that a query shows, the best match first, by the scores that a matcher gives.
pub fn fuzzy_rank(query: &str, texts: &Vec<String>, matcher: &Matcher) -> (rows: Vec<
    (usize, i64),
>)
    ensures
        exists|scores: Seq<Option<i64>>|
            #[trigger] scored(texts.deep_view(), query@, scores) && rows@ == ranked(
                texts.deep_view(),
                query@,
                scores,
            ),
{
    if query.is_empty() {
        let ghost none = Seq::new(texts@.len(), |i: int| Some(0i64));
        assert(scored(texts.deep_view(), query@, none));
        return every_row(texts.len());
    }
    let scores = score_all(query, texts, matcher);
    rank_scored(query, texts, &scores)
}

pub open spec fn item_texts(items: Seq<FilterItemV>) -> Seq<Seq<char>> {
    items.map_values(|item: FilterItemV| item.text)
}

/// What a filter answers: the keys of the rows that its query shows, with their scores.
pub open spec fn filtered(
    items: Seq<FilterItemV>,
    query: Seq<char>,
    scores: Seq<Option<i64>>,
) -> Seq<(FilterKeyV, i64)> {
    ranked(item_texts(items), query, scores).map_values(
        |row: (usize, i64)| (items[row.0 as int].key, row.1),
    )
}

/// What a filter answers.
#[verifier::loop_isolation(false)]
pub fn fuzzy_filter(query: &str, items: &Vec<FilterItem>, matcher: &Matcher) -> (matches: Vec<
    (FilterKey, i64),
>)
    ensures
        exists|scores: Seq<Option<i64>>|
            #[trigger] scored(item_texts(items.deep_view()), query@, scores) && matches.deep_view()
                == filtered(items.deep_view(), query@, scores),
{
    let ghost all = items.deep_view();
    let count: usize = items.len();
    let mut texts: Vec<String> = Vec::new();
    let mut i: usize = 0;
    while i < items.len()
        invariant
            i <= items.len(),
            texts@.len() == i,
            forall|k: int| 0 <= k < i ==> (#[trigger] texts@[k])@ == items@[k].text@,
        decreases items.len() - i,
    {
        texts.push(items[i].text.clone());
        i = i + 1;
    }
    assert(texts.deep_view() =~= item_texts(all));
    let rows = fuzzy_rank(query, &texts, matcher);
    let ghost scores = choose|scores: Seq<Option<i64>>|
        #[trigger] scored(item_texts(all), query@, scores) && rows@ == ranked(
            item_texts(all),
            query@,
            scores,
        );
    proof {
        assert(all.len() == count);
        if query@.len() > 0 {
            lemma_ranked_rows_match(item_texts(all), query@, scores);
        }
    }
    let ghost wanted = filtered(all, query@, scores);
    let mut matches: Vec<(FilterKey, i64)> = Vec::new();
    let mut k: usize = 0;
    while k < rows.len()
        invariant
            k <= rows.len(),
            matches@.len() == k,
            forall|j: int| 0 <= j < k ==> (#[trigger] matches@[j]).deep_view() == wanted[j],
        decreases rows.len() - k,
    {
        let (index, score) = rows[k];
        assert(rows@[k as int] == ranked(item_texts(all), query@, scores)[k as int]);
        assert(index < items@.len());
        let pair = (items[index].key.clone(), score);
        assert(all[index as int] == items@[index as int].deep_view());
        assert(pair.deep_view() == wanted[k as int]);
        matches.push(pair);
        k = k + 1;
    }
    assert(matches.deep_view() =~= wanted);
    matches
}

/// Answers a filter request.
pub fn answer_filter(request: FilterRequest, matcher: &Matcher) -> (event: AppEvent)
    ensures
        event matches AppEvent::FilterCompleted { target, generation, matches, selected }
            && target == request.target && generation == request.generation && selected
            == request.selected && exists|scores: Seq<Option<i64>>|
            #[trigger] scored(item_texts(request.items.deep_view()), request.query@, scores)
                && matches.deep_view() == filtered(
                request.items.deep_view(),
                request.query@,
                scores,
            ),
{
    let matches = fuzzy_filter(request.query.as_str(), &request.items, matcher);
    AppEvent::FilterCompleted {
        target: request.target,
        generation: request.generation,
        matches,
        selected: request.selected,
    }
}

} // verus!
