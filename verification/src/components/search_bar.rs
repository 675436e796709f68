//! The part of a query that a search field shows, and where its cursor stands.

use crate::components::span::{cluster_columns, cluster_texts, clusters_of, lemma_cluster_columns_front, measure_clusters, Cluster, ClusterV};
use crate::display::{sanitize, sanitized};
use crate::input::clusters_before;
use crate::text::{byte_len, chars_of, flattened, length, slice_of, text_of};
use vstd::prelude::*;
use vstd::string::*;

verus! {

/// The visible part of a text, as byte offsets, and the column of the cursor in it.
#[derive(Debug, Clone, Copy, PartialEq, Eq, Structural)]
pub struct VisibleSlice {
    pub start: usize,
    pub end: usize,
    pub cursor_col: u16,
}

/// The largest number of leading clusters that take at most `column` columns.
pub open spec fn last_within(clusters: Seq<ClusterV>, column: nat) -> nat
    decreases clusters.len(),
{
    if clusters.len() == 0 || cluster_columns(clusters) <= column {
        clusters.len()
    } else {
        last_within(clusters.drop_last(), column)
    }
}

/// How many clusters fit into `max` columns.
pub open spec fn shown_clusters(clusters: Seq<ClusterV>, max: int) -> nat
    decreases clusters.len(),
{
    if clusters.len() == 0 || clusters[0].columns > max {
        0
    } else {
        1 + shown_clusters(clusters.drop_first(), max - clusters[0].columns)
    }
}

/// The clusters before the one that the cursor stands on.
pub open spec fn cursor_index(clusters: Seq<ClusterV>, cursor: nat) -> int {
    clusters_before(cluster_texts(clusters), cursor as int) as int
}

/// The columns before the cursor.
pub open spec fn cursor_column(clusters: Seq<ClusterV>, cursor: nat) -> nat {
    cluster_columns(clusters.take(cursor_index(clusters, cursor)))
}

/// The first visible cluster: the field scrolls so far that the cursor is in its last column.
pub open spec fn window_start(clusters: Seq<ClusterV>, cursor: nat, max: nat) -> int {
    let column = cursor_column(clusters, cursor);
    let scrolled = if column >= max {
        (column - (max - 1)) as nat
    } else {
        0
    };
    let start = last_within(clusters, scrolled);
    if start >= clusters.len() {
        clusters.len() - 1
    } else {
        start as int
    }
}

/// Behind the last visible cluster.
pub open spec fn window_end(clusters: Seq<ClusterV>, cursor: nat, max: nat) -> int {
    let start = window_start(clusters, cursor, max);
    start + shown_clusters(clusters.skip(start), max as int)
}

/// The column of the cursor in the window.
pub open spec fn window_cursor(clusters: Seq<ClusterV>, cursor: nat, max: nat) -> int {
    let column = cursor_column(clusters, cursor) as int;
    let first = cluster_columns(clusters.take(window_start(clusters, cursor, max))) as int;
    if column <= first {
        0
    } else if column - first >= max {
        max - 1
    } else {
        column - first
    }
}

proof fn lemma_last_within_bound(clusters: Seq<ClusterV>, column: nat)
    ensures
        last_within(clusters, column) <= clusters.len(),
    decreases clusters.len(),
{
    if clusters.len() > 0 && cluster_columns(clusters) > column {
        lemma_last_within_bound(clusters.drop_last(), column);
    }
}

fn find_cursor(clusters: &Vec<Cluster>, cursor: usize) -> (index: usize)
    ensures
        index as int == cursor_index(clusters.deep_view(), cursor as nat),
        index <= clusters@.len(),
{
    let ghost texts = cluster_texts(clusters.deep_view());
    let mut left: usize = cursor;
    let mut i: usize = 0;
    assert(texts.skip(0) =~= texts);
    while i < clusters.len()
        invariant
            i <= clusters.len(),
            texts == cluster_texts(clusters.deep_view()),
            clusters_before(texts, cursor as int) == i + clusters_before(
                texts.skip(i as int),
                left as int,
            ),
        decreases clusters.len() - i,
    {
        assert(texts.skip(i as int)[0] == clusters@[i as int].text@);
        assert(texts.skip(i as int).drop_first() =~= texts.skip(i + 1));
        let bytes: usize = length(clusters[i].text.as_str());
        if bytes > left {
            return i;
        }
        left = left - bytes;
        i = i + 1;
    }
    assert(texts.skip(i as int) =~= Seq::empty());
    i
}

/// The columns that the first `count` clusters take.
fn columns_before(clusters: &Vec<Cluster>, count: usize) -> (columns: u128)
    requires
        count <= clusters@.len(),
    ensures
        columns as nat == cluster_columns(clusters.deep_view().take(count as int)),
        columns <= count * 0xffff_ffff_ffff_ffff,
{
    let ghost all = clusters.deep_view();
    let mut columns: u128 = 0;
    let mut i: usize = 0;
    assert(all.take(0) =~= Seq::empty());
    while i < count
        invariant
            i <= count <= clusters@.len(),
            all == clusters.deep_view(),
            columns as nat == cluster_columns(all.take(i as int)),
            columns <= i * 0xffff_ffff_ffff_ffff,
        decreases count - i,
    {
        assert(i < 0xffff_ffff_ffff_ffff);
        columns = columns + clusters[i].columns as u128;
        i = i + 1;
        assert(all.take(i as int).drop_last() =~= all.take(i - 1));
        assert(all.take(i as int).last() == clusters@[i - 1].deep_view());
    }
    columns
}

fn find_last_within(clusters: &Vec<Cluster>, column: u128) -> (count: usize)
    ensures
        count as nat == last_within(clusters.deep_view(), column as nat),
        count <= clusters@.len(),
{
    let ghost all = clusters.deep_view();
    let mut count: usize = clusters.len();
    let mut columns = columns_before(clusters, count);
    assert(all.take(all.len() as int) =~= all);
    while count > 0 && columns > column
        invariant
            count <= clusters@.len(),
            all == clusters.deep_view(),
            columns as nat == cluster_columns(all.take(count as int)),
            last_within(all, column as nat) == last_within(all.take(count as int), column as nat),
        decreases count,
    {
        assert(all.take(count as int).drop_last() =~= all.take(count - 1));
        assert(all.take(count as int).last() == clusters@[count - 1].deep_view());
        columns = columns - clusters[count - 1].columns as u128;
        count = count - 1;
    }
    count
}

fn count_shown(clusters: &Vec<Cluster>, start: usize, max: u16) -> (end: usize)
    requires
        start <= clusters@.len(),
    ensures
        end == start + shown_clusters(clusters.deep_view().skip(start as int), max as int),
        end <= clusters@.len(),
{
    let ghost all = clusters.deep_view();
    let mut left: usize = max as usize;
    let mut end: usize = start;
    while end < clusters.len() && clusters[end].columns <= left
        invariant
            start <= end <= clusters@.len(),
            all == clusters.deep_view(),
            start + shown_clusters(all.skip(start as int), max as int) == end + shown_clusters(
                all.skip(end as int),
                left as int,
            ),
        decreases clusters.len() - end,
    {
        assert(all.skip(end as int)[0] == clusters@[end as int].deep_view());
        assert(all.skip(end as int).drop_first() =~= all.skip(end + 1));
        left = left - clusters[end].columns;
        end = end + 1;
    }
    proof {
        if end < clusters@.len() {
            assert(all.skip(end as int)[0] == clusters@[end as int].deep_view());
        }
    }
    end
}

/// The visible clusters of a text and the column of the cursor among them.
pub fn window(clusters: &Vec<Cluster>, cursor: usize, max_width: u16) -> (view: (usize, usize, u16))
    requires
        clusters@.len() > 0,
        max_width > 0,
    ensures
        view.0 as int == window_start(clusters.deep_view(), cursor as nat, max_width as nat),
        view.1 as int == window_end(clusters.deep_view(), cursor as nat, max_width as nat),
        view.2 as int == window_cursor(clusters.deep_view(), cursor as nat, max_width as nat),
        view.0 <= view.1 <= clusters@.len(),
{
    let index = find_cursor(clusters, cursor);
    let column = columns_before(clusters, index);
    let last: u128 = (max_width - 1) as u128;
    let scrolled: u128 = if column > last {
        column - last
    } else {
        0
    };
    let found = find_last_within(clusters, scrolled);
    let start: usize = if found >= clusters.len() {
        clusters.len() - 1
    } else {
        found
    };
    let end = count_shown(clusters, start, max_width);
    let first = columns_before(clusters, start);
    let cursor_col: u16 = if column <= first {
        0
    } else if column - first > last {
        max_width - 1
    } else {
        (column - first) as u16
    };
    (start, end, cursor_col)
}

/// The texts of some clusters in a row.
fn text_between(clusters: &Vec<Cluster>, from: usize, to: usize) -> (text: String)
    requires
        from <= to <= clusters@.len(),
    ensures
        text@ == flattened(cluster_texts(clusters.deep_view().subrange(from as int, to as int))),
{
    let ghost all = clusters.deep_view();
    let mut text = String::new();
    let mut i: usize = from;
    assert(cluster_texts(all.subrange(from as int, from as int)) =~= Seq::empty());
    while i < to
        invariant
            from <= i <= to <= clusters@.len(),
            all == clusters.deep_view(),
            text@ == flattened(cluster_texts(all.subrange(from as int, i as int))),
        decreases to - i,
    {
        text.push_str(clusters[i].text.as_str());
        i = i + 1;
        let ghost shown = cluster_texts(all.subrange(from as int, i as int));
        assert(shown.drop_last() =~= cluster_texts(all.subrange(from as int, i - 1)));
        assert(shown.last() == clusters@[i - 1].text@);
    }
    text
}

/// Where a part of a text that ends between two clusters ends in bytes.
pub open spec fn byte_offset(clusters: Seq<ClusterV>, count: int) -> nat {
    byte_len(flattened(cluster_texts(clusters.take(count))))
}

/// The part of a text that a field of some width shows.
pub open spec fn visible(text: Seq<char>, cursor: nat, max_width: nat) -> (nat, nat, int) {
    let clusters = clusters_of(text);
    if max_width == 0 || text.len() == 0 {
        (0, 0, 0)
    } else {
        (
            byte_offset(clusters, window_start(clusters, cursor, max_width)),
            byte_offset(clusters, window_end(clusters, cursor, max_width)),
            window_cursor(clusters, cursor, max_width),
        )
    }
}

/// The part of a text that a field shows, cut between clusters, with the cursor in it.
pub fn visible_slice(text: &str, cursor: usize, max_width: u16) -> (slice: VisibleSlice)
    ensures
        (slice.start as nat, slice.end as nat, slice.cursor_col as int) == visible(
            text@,
            cursor as nat,
            max_width as nat,
        ),
{
    if max_width == 0 || text.is_empty() {
        return VisibleSlice { start: 0, end: 0, cursor_col: 0 };
    }
    let clusters = measure_clusters(text);
    proof {
        if clusters@.len() == 0 {
            assert(cluster_texts(clusters.deep_view()) =~= Seq::empty());
        }
    }
    let (first, last, cursor_col) = window(&clusters, cursor, max_width);
    let ghost all = clusters.deep_view();
    assert(all.subrange(0, first as int) =~= all.take(first as int));
    assert(all.subrange(0, last as int) =~= all.take(last as int));
    let start: usize = length(text_between(&clusters, 0, first).as_str());
    let end: usize = length(text_between(&clusters, 0, last).as_str());
    VisibleSlice { start, end, cursor_col }
}

/// How many whole characters lie before the byte offset `cursor`.
pub open spec fn chars_before(text: Seq<char>, cursor: int) -> nat
    decreases text.len(),
{
    if text.len() > 0 && byte_len(seq![text[0]]) <= cursor {
        1 + chars_before(text.drop_first(), cursor - byte_len(seq![text[0]]))
    } else {
        0
    }
}

fn count_chars_before(chars: &Vec<char>, cursor: usize) -> (count: usize)
    ensures
        count as nat == chars_before(chars@, cursor as int),
        count <= chars@.len(),
{
    let mut left: usize = cursor;
    let mut i: usize = 0;
    assert(chars@.skip(0) =~= chars@);
    while i < chars.len()
        invariant
            i <= chars.len(),
            chars_before(chars@, cursor as int) == i + chars_before(
                chars@.skip(i as int),
                left as int,
            ),
        decreases chars.len() - i,
    {
        assert(chars@.skip(i as int)[0] == chars@[i as int]);
        assert(chars@.skip(i as int).drop_first() =~= chars@.skip(i + 1));
        let mut one = String::new();
        one.push(chars[i]);
        assert(one@ =~= seq![chars@[i as int]]);
        let bytes: usize = length(one.as_str());
        if bytes > left {
            return i;
        }
        left = left - bytes;
        i = i + 1;
    }
    assert(chars@.skip(i as int) =~= Seq::empty());
    i
}

/// What a search field shows of a query, and the column of its cursor.
pub open spec fn shown_query(text: Seq<char>, cursor: nat, max_width: nat) -> (Seq<char>, int) {
    let whole = sanitized(text);
    let clusters = clusters_of(whole);
    let at = byte_len(sanitized(text.take(chars_before(text, cursor as int) as int)));
    if max_width == 0 || whole.len() == 0 {
        (Seq::empty(), 0)
    } else {
        (
            flattened(
                cluster_texts(
                    clusters.subrange(
                        window_start(clusters, at, max_width),
                        window_end(clusters, at, max_width),
                    ),
                ),
            ),
            window_cursor(clusters, at, max_width),
        )
    }
}

/// Makes a query visible: control characters as escapes, scrolled so that the cursor shows.
pub fn show_query(text: &str, cursor: usize, max_width: u16) -> (shown: (String, u16))
    ensures
        (shown.0@, shown.1 as int) == shown_query(text@, cursor as nat, max_width as nat),
{
    let whole = sanitize(text);
    if max_width == 0 || whole.as_str().is_empty() {
        let empty = String::new();
        assert(empty@ =~= Seq::empty());
        return (empty, 0);
    }
    let chars = chars_of(text);
    let count = count_chars_before(&chars, cursor);
    let head = text_of(slice_of(&chars, 0, count));
    assert(head@ =~= text@.take(count as int));
    let at: usize = length(sanitize(head.as_str()).as_str());
    let clusters = measure_clusters(whole.as_str());
    proof {
        if clusters@.len() == 0 {
            assert(cluster_texts(clusters.deep_view()) =~= Seq::empty());
        }
    }
    let (first, last, cursor_col) = window(&clusters, at, max_width);
    (text_between(&clusters, first, last), cursor_col)
}

/// What is visible fits into the field.
pub proof fn lemma_window_fits(clusters: Seq<ClusterV>, cursor: nat, max: nat)
    requires
        clusters.len() > 0,
        max > 0,
    ensures
        ({
            let start = window_start(clusters, cursor, max);
            let end = window_end(clusters, cursor, max);
            &&& 0 <= start <= end <= clusters.len()
            &&& cluster_columns(clusters.subrange(start, end)) <= max
        }),
        0 <= window_cursor(clusters, cursor, max) < max,
{
    let column = cursor_column(clusters, cursor);
    let scrolled = if column >= max {
        (column - (max - 1)) as nat
    } else {
        0
    };
    lemma_last_within_bound(clusters, scrolled);
    let start = window_start(clusters, cursor, max);
    let end = window_end(clusters, cursor, max);
    lemma_shown_fit(clusters.skip(start), max as int);
    assert(clusters.subrange(start, end) =~= clusters.skip(start).take(end - start));
}

proof fn lemma_shown_fit(clusters: Seq<ClusterV>, max: int)
    requires
        max >= 0,
    ensures
        shown_clusters(clusters, max) <= clusters.len(),
        cluster_columns(clusters.take(shown_clusters(clusters, max) as int)) <= max,
    decreases clusters.len(),
{
    if clusters.len() == 0 || clusters[0].columns > max {
        assert(clusters.take(0) =~= Seq::empty());
    } else {
        let rest = clusters.drop_first();
        let left = max - clusters[0].columns;
        lemma_shown_fit(rest, left);
        let kept = rest.take(shown_clusters(rest, left) as int);
        assert(clusters.take(shown_clusters(clusters, max) as int) =~= seq![clusters[0]] + kept);
        lemma_cluster_columns_front(clusters[0], kept);
    }
}

} // verus!
