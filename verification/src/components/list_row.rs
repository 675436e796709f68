//! Rows that fit a width: what is too long ends in an ellipsis, and a suffix stands at the
//! right edge.

use crate::components::span::{cluster_columns, cluster_texts, lemma_cluster_columns_front, measure_all, measured, raw_span, total_columns, width_of, Cluster, ClusterV, Measured, MeasuredV, Span, SpanV};
use crate::text::{flattened, owned};
use vstd::prelude::*;
use vstd::string::*;

verus! {

/// How many clusters fit behind `used` columns so that one column of `max` is left.
pub open spec fn fitting(clusters: Seq<ClusterV>, used: nat, max: nat) -> nat
    decreases clusters.len(),
{
    if clusters.len() == 0 || used + clusters[0].columns >= max {
        0
    } else {
        1 + fitting(clusters.drop_first(), used + clusters[0].columns, max)
    }
}

proof fn lemma_fitting_bound(clusters: Seq<ClusterV>, used: nat, max: nat)
    ensures
        fitting(clusters, used, max) <= clusters.len(),
    decreases clusters.len(),
{
    if clusters.len() > 0 && used + clusters[0].columns < max {
        lemma_fitting_bound(clusters.drop_first(), used + clusters[0].columns, max);
    }
}

/// The columns of all pieces, each measured as a whole.
pub open spec fn measured_columns(spans: Seq<MeasuredV>) -> nat
    decreases spans.len(),
{
    if spans.len() == 0 {
        0
    } else {
        measured_columns(spans.drop_last()) + spans.last().columns
    }
}

/// The pieces that fit behind `used` columns, the last of them cut between two clusters.
pub open spec fn cut_pieces(spans: Seq<MeasuredV>, used: nat, max: nat) -> Seq<SpanV>
    decreases spans.len(),
{
    if spans.len() == 0 {
        Seq::empty()
    } else {
        let kept = spans[0].clusters.take(fitting(spans[0].clusters, used, max) as int);
        let text = flattened(cluster_texts(kept));
        let after = used + cluster_columns(kept);
        let rest = if after + 1 >= max {
            Seq::empty()
        } else {
            cut_pieces(spans.drop_first(), after, max)
        };
        if text.len() == 0 {
            rest
        } else {
            seq![SpanV { text, style: spans[0].span.style }] + rest
        }
    }
}

/// The pieces where they fit, else as much of them as leaves a column for an ellipsis.
pub open spec fn cut(spans: Seq<MeasuredV>, max: nat) -> Seq<SpanV> {
    if max == 0 {
        Seq::empty()
    } else if measured_columns(spans) <= max {
        spans.map_values(|m: MeasuredV| m.span)
    } else {
        cut_pieces(spans, 0, max).push(raw_span("…"@))
    }
}

/// The clusters of one piece that fit, and the columns that are taken behind them.
fn cut_piece(clusters: &Vec<Cluster>, used: u128, max: u128) -> (cut: (String, u128))
    requires
        used < max,
        max <= 0xffff_ffff_ffff_ffff,
    ensures
        ({
            let all = clusters.deep_view();
            let kept = all.take(fitting(all, used as nat, max as nat) as int);
            &&& cut.0@ == flattened(cluster_texts(kept))
            &&& cut.1 as nat == used + cluster_columns(kept)
            &&& cut.1 < max
        }),
{
    let mut text = String::new();
    let mut taken: u128 = used;
    let mut i: usize = 0;
    let ghost all = clusters.deep_view();
    assert(all.skip(0) =~= all);
    assert(cluster_texts(all.take(0)) =~= Seq::empty());
    assert(all.take(0) =~= Seq::empty());
    while i < clusters.len() && taken + (clusters[i].columns as u128) < max
        invariant
            i <= clusters.len(),
            all == clusters.deep_view(),
            all.len() == clusters@.len(),
            taken < max,
            max <= 0xffff_ffff_ffff_ffff,
            text@ == flattened(cluster_texts(all.take(i as int))),
            taken as nat == used + cluster_columns(all.take(i as int)),
            fitting(all, used as nat, max as nat) == i + fitting(
                all.skip(i as int),
                taken as nat,
                max as nat,
            ),
        decreases clusters.len() - i,
    {
        assert(all.skip(i as int)[0] == all[i as int]);
        assert(all[i as int] == clusters@[i as int].deep_view());
        assert(all.skip(i as int).drop_first() =~= all.skip(i + 1));
        text.push_str(clusters[i].text.as_str());
        taken = taken + clusters[i].columns as u128;
        i = i + 1;
        let ghost shown = all.take(i as int);
        assert(shown.drop_last() =~= all.take(i - 1));
        assert(cluster_texts(shown).drop_last() =~= cluster_texts(all.take(i - 1)));
        assert(cluster_texts(shown).last() == clusters@[i - 1].text@);
    }
    proof {
        if i < clusters@.len() {
            assert(all.skip(i as int)[0] == clusters@[i as int].deep_view());
        }
        assert(fitting(all.skip(i as int), taken as nat, max as nat) == 0);
    }
    (text, taken)
}

/// Cuts measured pieces to a width.
#[verifier::loop_isolation(false)]
pub fn cut_measured(spans: &Vec<Measured>, max_width: usize) -> (row: Vec<Span>)
    ensures
        row.deep_view() == cut(spans.deep_view(), max_width as nat),
{
    let ghost all = spans.deep_view();
    if max_width == 0 {
        return Vec::new();
    }
    let mut total: u128 = 0;
    let mut i: usize = 0;
    assert(all.take(0) =~= Seq::empty());
    while i < spans.len()
        invariant
            i <= spans.len(),
            total as nat == measured_columns(all.take(i as int)),
            total <= i * 0xffff_ffff_ffff_ffff,
        decreases spans.len() - i,
    {
        assert(i < 0xffff_ffff_ffff_ffff);
        total = total + spans[i].columns as u128;
        i = i + 1;
        assert(all.take(i as int).drop_last() =~= all.take(i - 1));
        assert(all[i - 1] == spans@[i - 1].deep_view());
    }
    assert(all.take(i as int) =~= all);
    let mut row: Vec<Span> = Vec::new();
    if total <= max_width as u128 {
        let mut k: usize = 0;
        while k < spans.len()
            invariant
                k <= spans.len(),
                row@.len() == k,
                forall|j: int|
                    0 <= j < k ==> (#[trigger] row@[j]).deep_view() == spans@[j].span.deep_view(),
            decreases spans.len() - k,
        {
            row.push(spans[k].span.clone());
            k = k + 1;
        }
        assert(row.deep_view() =~= all.map_values(|m: MeasuredV| m.span));
        return row;
    }
    let max = max_width as u128;
    let mut used: u128 = 0;
    let mut k: usize = 0;
    let mut full = false;
    let ghost goal = cut_pieces(all, 0, max_width as nat);
    assert(all.skip(0) =~= all);
    assert(row.deep_view() + goal =~= goal);
    while k < spans.len() && !full
        invariant
            k <= spans.len(),
            used < max,
            goal == row.deep_view() + (if full {
                Seq::empty()
            } else {
                cut_pieces(all.skip(k as int), used as nat, max_width as nat)
            }),
        decreases spans.len() - k,
    {
        let ghost rest = all.skip(k as int);
        let ghost before = row.deep_view();
        assert(rest[0] == spans@[k as int].deep_view());
        assert(rest.drop_first() =~= all.skip(k + 1));
        let (text, after) = cut_piece(&spans[k].clusters, used, max);
        if !text.as_str().is_empty() {
            let piece = Span { text, style: spans[k].span.style };
            let ghost added = piece.deep_view();
            row.push(piece);
            assert(row.deep_view() =~= before.push(added));
        }
        used = after;
        full = used + 1 >= max;
        k = k + 1;
        assert(goal =~= row.deep_view() + (if full {
            Seq::empty()
        } else {
            cut_pieces(all.skip(k as int), used as nat, max_width as nat)
        }));
    }
    assert(all.skip(all.len() as int) =~= Seq::empty());
    assert(goal =~= row.deep_view());
    let ellipsis = Span::raw(owned("…"));
    row.push(ellipsis);
    assert(row.deep_view() =~= goal.push(raw_span("…"@)));
    row
}

/// The pieces cut to a width.
pub open spec fn truncated(spans: Seq<SpanV>, max_width: nat) -> Seq<SpanV> {
    cut(spans.map_values(|s: SpanV| measured(s)), max_width)
}

/// Cuts a row to a width, between clusters, with an ellipsis where something was left out.
pub fn truncate_spans(spans: &[Span], max_width: usize) -> (row: Vec<Span>)
    ensures
        row.deep_view() == truncated(spans.deep_view(), max_width as nat),
{
    let measured = measure_all(spans);
    cut_measured(&measured, max_width)
}

pub open spec fn blanks(count: nat) -> Seq<char> {
    Seq::new(count, |i: int| ' ')
}

fn blank(count: usize) -> (text: String)
    ensures
        text@ == blanks(count as nat),
{
    let mut text = String::new();
    let mut i: usize = 0;
    while i < count
        invariant
            i <= count,
            text@ =~= blanks(i as nat),
        decreases count - i,
    {
        text.push(' ');
        i = i + 1;
    }
    text
}

/// What stands left, then as many blanks as the row has columns left, then the suffix.
pub open spec fn apart(
    left: Seq<SpanV>,
    left_width: nat,
    right: Seq<SpanV>,
    right_width: nat,
    row_width: nat,
) -> Seq<SpanV> {
    left.push(raw_span(blanks((row_width - left_width - right_width) as nat))) + right
}

/// Puts a suffix at the right edge of a row that has the columns for both sides.
pub fn set_apart(
    left: Vec<Span>,
    left_width: usize,
    right: &[Span],
    right_width: usize,
    row_width: usize,
) -> (row: Vec<Span>)
    requires
        left_width + right_width <= row_width,
    ensures
        row.deep_view() == apart(
            left.deep_view(),
            left_width as nat,
            right.deep_view(),
            right_width as nat,
            row_width as nat,
        ),
{
    let mut row = left;
    let ghost start = row.deep_view();
    let gap = Span::raw(blank(row_width - left_width - right_width));
    let ghost gap_view = gap.deep_view();
    row.push(gap);
    assert(row.deep_view() =~= start.push(gap_view));
    let mut i: usize = 0;
    let ghost head = row.deep_view();
    let ghost all = right.deep_view();
    assert(head + all.take(0) =~= head);
    while i < right.len()
        invariant
            i <= right.len(),
            all == right.deep_view(),
            row.deep_view() == head + all.take(i as int),
        decreases right.len() - i,
    {
        let ghost before = row.deep_view();
        let piece = right[i].clone();
        let ghost added = piece.deep_view();
        row.push(piece);
        i = i + 1;
        assert(row.deep_view() =~= before.push(added));
        assert(all.take(i as int) =~= all.take(i - 1).push(added));
        assert(row.deep_view() =~= head + all.take(i as int));
    }
    assert(all.take(i as int) =~= all);
    row
}

/// Whether the suffix and one blank fit into the row.
pub open spec fn suffix_fits(right: Seq<SpanV>, row_width: nat) -> bool {
    total_columns(right) + 1 <= row_width
}

/// The left side cut to the columns that the suffix and one blank leave.
pub open spec fn left_side(left: Seq<SpanV>, right: Seq<SpanV>, row_width: nat) -> Seq<SpanV> {
    truncated(left, (row_width - total_columns(right) - 1) as nat)
}

/// Whether the left side, once cut, takes no more columns than were left for it and the blank.
pub open spec fn sides_fit(left: Seq<SpanV>, right: Seq<SpanV>, row_width: nat) -> bool {
    suffix_fits(right, row_width) ==> total_columns(left_side(left, right, row_width))
        + total_columns(right) <= row_width
}

/// A row with its suffix at the right edge; without the suffix where that does not fit.
pub open spec fn suffixed(left: Seq<SpanV>, right: Seq<SpanV>, row_width: nat) -> Seq<SpanV> {
    if suffix_fits(right, row_width) {
        let side = left_side(left, right, row_width);
        apart(side, total_columns(side), right, total_columns(right), row_width)
    } else {
        truncated(left, row_width)
    }
}

/// Puts a suffix at the right edge of a row, which is cut where it is too long.
pub fn right_align_suffix(left: &[Span], right: &[Span], row_width: usize) -> (row: Vec<Span>)
    requires
        sides_fit(left.deep_view(), right.deep_view(), row_width as nat),
    ensures
        row.deep_view() == suffixed(left.deep_view(), right.deep_view(), row_width as nat),
{
    let right_width = width_of(right);
    if (row_width as u128) <= right_width {
        return truncate_spans(left, row_width);
    }
    let right_columns = right_width as usize;
    let side = truncate_spans(left, row_width - right_columns - 1);
    let pieces: &[Span] = side.as_slice();
    assert(pieces.deep_view() =~= side.deep_view());
    let left_width = width_of(pieces);
    let left_columns = left_width as usize;
    set_apart(side, left_columns, right, right_columns, row_width)
}

/// As [`right_align_suffix`], for any two sides: nothing where the cut left side, measured as
/// a whole, takes more columns than the suffix leaves.
pub fn checked_right_align_suffix(left: &[Span], right: &[Span], row_width: usize) -> (row: Option<
    Vec<Span>,
>)
    ensures
        match row {
            Some(spans) => sides_fit(left.deep_view(), right.deep_view(), row_width as nat)
                && spans.deep_view() == suffixed(
                left.deep_view(),
                right.deep_view(),
                row_width as nat,
            ),
            None => !sides_fit(left.deep_view(), right.deep_view(), row_width as nat),
        },
{
    let right_width = width_of(right);
    if (row_width as u128) > right_width {
        let side = truncate_spans(left, row_width - right_width as usize - 1);
        let pieces: &[Span] = side.as_slice();
        assert(pieces.deep_view() =~= side.deep_view());
        let left_width = width_of(pieces);
        if left_width > row_width as u128 - right_width {
            return None;
        }
    }
    Some(right_align_suffix(left, right, row_width))
}

/// A row with a suffix takes the whole width, as its pieces count.
pub proof fn lemma_suffix_ends_at_the_edge(left: Seq<SpanV>, right: Seq<SpanV>, row_width: nat)
    requires
        sides_fit(left, right, row_width),
        suffix_fits(right, row_width),
    ensures
        ({
            let side = left_side(left, right, row_width);
            let gap = row_width - total_columns(side) - total_columns(right);
            &&& suffixed(left, right, row_width).len() == side.len() + 1 + right.len()
            &&& suffixed(left, right, row_width).skip(side.len() as int + 1) == right
            &&& suffixed(left, right, row_width).take(side.len() as int) == side
            &&& suffixed(left, right, row_width)[side.len() as int].text == blanks(gap as nat)
            &&& total_columns(side) + gap + total_columns(right) == row_width
        }),
{
    let side = left_side(left, right, row_width);
    let row = suffixed(left, right, row_width);
    assert(row.skip(side.len() as int + 1) =~= right);
    assert(row.take(side.len() as int) =~= side);
}

/// What is cut does not grow over the width: the kept clusters take fewer columns than it has.
pub proof fn lemma_cut_leaves_a_column(clusters: Seq<ClusterV>, used: nat, max: nat)
    requires
        used < max,
    ensures
        used + cluster_columns(clusters.take(fitting(clusters, used, max) as int)) < max,
        fitting(clusters, used, max) <= clusters.len(),
    decreases clusters.len(),
{
    lemma_fitting_bound(clusters, used, max);
    if clusters.len() > 0 && used + clusters[0].columns < max {
        let rest = clusters.drop_first();
        let after = used + clusters[0].columns;
        lemma_cut_leaves_a_column(rest, after, max);
        let kept = clusters.take(fitting(clusters, used, max) as int);
        let kept_rest = rest.take(fitting(rest, after, max) as int);
        assert(kept =~= seq![clusters[0]] + kept_rest);
        lemma_cluster_columns_front(clusters[0], kept_rest);
    } else {
        assert(clusters.take(0) =~= Seq::empty());
    }
}

} // verus!
