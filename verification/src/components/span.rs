//! Pieces of text with a look, from which the lines of a screen are made.

use crate::text::{columns, columns_of, flattened, graphemes, graphemes_of, owned};
use vstd::prelude::*;
use vstd::string::*;

verus! {

/// The colour of a piece of text, by the role that the theme gives it.
#[derive(Debug, Clone, Copy, PartialEq, Eq, Structural)]
pub enum Tone {
    Plain,
    Accent,
    Secondary,
    Tertiary,
    Error,
    Warning,
    Muted,
    Hint,
    Open,
}

#[derive(Debug, Clone, Copy, PartialEq, Eq, Structural)]
pub enum Weight {
    Normal,
    Bold,
    Dim,
    Italic,
    /// Bold and underlined.
    Heading,
}

#[derive(Debug, Clone, Copy, PartialEq, Eq, Structural)]
pub struct SpanStyle {
    pub tone: Tone,
    pub weight: Weight,
}

/// A piece of text with one look.
#[derive(Debug, PartialEq, Eq)]
pub struct Span {
    pub text: String,
    pub style: SpanStyle,
}

#[verifier::ext_equal]
pub struct SpanV {
    pub text: Seq<char>,
    pub style: SpanStyle,
}

impl DeepView for Span {
    type V = SpanV;

    open spec fn deep_view(&self) -> SpanV {
        SpanV { text: self.text@, style: self.style }
    }
}

pub open spec fn plain_style() -> SpanStyle {
    SpanStyle { tone: Tone::Plain, weight: Weight::Normal }
}

pub open spec fn toned_style(tone: Tone) -> SpanStyle {
    SpanStyle { tone, weight: Weight::Normal }
}

/// A piece without a look of its own.
pub open spec fn raw_span(text: Seq<char>) -> SpanV {
    SpanV { text, style: plain_style() }
}

pub open spec fn toned_span(text: Seq<char>, tone: Tone) -> SpanV {
    SpanV { text, style: toned_style(tone) }
}

impl Span {
    pub fn raw(text: String) -> (span: Span)
        ensures
            span.deep_view() == raw_span(text@),
    {
        Span { text, style: SpanStyle { tone: Tone::Plain, weight: Weight::Normal } }
    }

    pub fn toned(text: String, tone: Tone) -> (span: Span)
        ensures
            span.deep_view() == toned_span(text@, tone),
    {
        Span { text, style: SpanStyle { tone, weight: Weight::Normal } }
    }

    pub fn styled(text: String, tone: Tone, weight: Weight) -> (span: Span)
        ensures
            span.deep_view() == (SpanV { text: text@, style: SpanStyle { tone, weight } }),
    {
        Span { text, style: SpanStyle { tone, weight } }
    }
}

impl Clone for Span {
    fn clone(&self) -> (copy: Self)
        ensures
            copy.deep_view() == self.deep_view(),
    {
        Span { text: self.text.clone(), style: self.style }
    }
}

/// Appends one piece.
pub fn append(line: &mut Vec<Span>, span: Span)
    ensures
        final(line).deep_view() == old(line).deep_view().push(span.deep_view()),
{
    let ghost before = line.deep_view();
    let ghost added = span.deep_view();
    line.push(span);
    assert(line.deep_view() =~= before.push(added));
}

/// A line of one piece.
pub fn line_of(span: Span) -> (line: Vec<Span>)
    ensures
        line.deep_view() == seq![span.deep_view()],
{
    let ghost view = span.deep_view();
    let mut line: Vec<Span> = Vec::new();
    line.push(span);
    assert(line.deep_view() =~= seq![view]);
    line
}

/// A line of two pieces.
pub fn line_of_two(first: Span, second: Span) -> (line: Vec<Span>)
    ensures
        line.deep_view() == seq![first.deep_view(), second.deep_view()],
{
    let ghost view = seq![first.deep_view(), second.deep_view()];
    let mut line: Vec<Span> = Vec::new();
    line.push(first);
    line.push(second);
    assert(line.deep_view() =~= view);
    line
}

/// A line of three pieces.
pub fn line_of_three(first: Span, second: Span, third: Span) -> (line: Vec<Span>)
    ensures
        line.deep_view() == seq![first.deep_view(), second.deep_view(), third.deep_view()],
{
    let ghost view = seq![first.deep_view(), second.deep_view(), third.deep_view()];
    let mut line: Vec<Span> = Vec::new();
    line.push(first);
    line.push(second);
    line.push(third);
    assert(line.deep_view() =~= view);
    line
}

/// Appends one line.
pub fn append_line(lines: &mut Vec<Vec<Span>>, line: Vec<Span>)
    ensures
        final(lines).deep_view() == old(lines).deep_view().push(line.deep_view()),
{
    let ghost before = lines.deep_view();
    let ghost added = line.deep_view();
    lines.push(line);
    assert(lines.deep_view() =~= before.push(added));
}

/// A line without text.
pub fn blank_line() -> (line: Vec<Span>)
    ensures
        line.deep_view() == Seq::<SpanV>::empty(),
{
    let line: Vec<Span> = Vec::new();
    assert(line.deep_view() =~= Seq::<SpanV>::empty());
    line
}

/// What stands on the screen as one character, and how many columns it takes.
#[derive(Debug, PartialEq, Eq)]
pub struct Cluster {
    pub text: String,
    pub columns: usize,
}

#[verifier::ext_equal]
pub struct ClusterV {
    pub text: Seq<char>,
    pub columns: nat,
}

impl DeepView for Cluster {
    type V = ClusterV;

    open spec fn deep_view(&self) -> ClusterV {
        ClusterV { text: self.text@, columns: self.columns as nat }
    }
}

/// A piece of text with its clusters and the columns that it takes as a whole.
#[derive(Debug, PartialEq, Eq)]
pub struct Measured {
    pub span: Span,
    pub columns: usize,
    pub clusters: Vec<Cluster>,
}

#[verifier::ext_equal]
pub struct MeasuredV {
    pub span: SpanV,
    pub columns: nat,
    pub clusters: Seq<ClusterV>,
}

impl DeepView for Measured {
    type V = MeasuredV;

    open spec fn deep_view(&self) -> MeasuredV {
        MeasuredV {
            span: self.span.deep_view(),
            columns: self.columns as nat,
            clusters: self.clusters.deep_view(),
        }
    }
}

/// The clusters of a text with their columns.
pub open spec fn clusters_of(text: Seq<char>) -> Seq<ClusterV> {
    graphemes_of(text).map_values(|c: Seq<char>| ClusterV { text: c, columns: columns_of(c) })
}

pub open spec fn measured(span: SpanV) -> MeasuredV {
    MeasuredV { span, columns: columns_of(span.text), clusters: clusters_of(span.text) }
}

/// The clusters without their columns.
pub open spec fn cluster_texts(clusters: Seq<ClusterV>) -> Seq<Seq<char>> {
    clusters.map_values(|c: ClusterV| c.text)
}

/// The columns that clusters take one after the other.
pub open spec fn cluster_columns(clusters: Seq<ClusterV>) -> nat
    decreases clusters.len(),
{
    if clusters.len() == 0 {
        0
    } else {
        cluster_columns(clusters.drop_last()) + clusters.last().columns
    }
}

pub proof fn lemma_cluster_columns_front(first: ClusterV, rest: Seq<ClusterV>)
    ensures
        cluster_columns(seq![first] + rest) == first.columns + cluster_columns(rest),
    decreases rest.len(),
{
    let all = seq![first] + rest;
    if rest.len() == 0 {
        assert(all.drop_last() =~= Seq::empty());
        assert(all.last() == first);
        assert(cluster_columns(all.drop_last()) == 0);
    } else {
        assert(all.last() == rest.last());
        assert(all.drop_last() =~= seq![first] + rest.drop_last());
        lemma_cluster_columns_front(first, rest.drop_last());
    }
}

/// Splits a text into clusters and measures each.
pub fn measure_clusters(text: &str) -> (clusters: Vec<Cluster>)
    ensures
        clusters.deep_view() == clusters_of(text@),
        cluster_texts(clusters.deep_view()) == graphemes_of(text@),
        flattened(cluster_texts(clusters.deep_view())) == text@,
{
    let texts = graphemes(text);
    let mut clusters: Vec<Cluster> = Vec::new();
    let mut i: usize = 0;
    while i < texts.len()
        invariant
            i <= texts.len(),
            clusters@.len() == i,
            forall|k: int|
                0 <= k < i ==> (#[trigger] clusters@[k]).deep_view() == (ClusterV {
                    text: texts@[k]@,
                    columns: columns_of(texts@[k]@),
                }),
        decreases texts.len() - i,
    {
        let width = columns(texts[i].as_str());
        clusters.push(Cluster { text: owned(texts[i].as_str()), columns: width });
        i = i + 1;
    }
    assert(clusters.deep_view() =~= clusters_of(text@));
    assert(cluster_texts(clusters.deep_view()) =~= graphemes_of(text@));
    clusters
}

/// Splits and measures one piece.
pub fn measure(span: &Span) -> (result: Measured)
    ensures
        result.deep_view() == measured(span.deep_view()),
{
    let clusters = measure_clusters(span.text.as_str());
    let width = columns(span.text.as_str());
    Measured { span: span.clone(), columns: width, clusters }
}

pub fn measure_all(spans: &[Span]) -> (all: Vec<Measured>)
    ensures
        all.deep_view() == spans.deep_view().map_values(|s: SpanV| measured(s)),
{
    let mut all: Vec<Measured> = Vec::new();
    let mut i: usize = 0;
    while i < spans.len()
        invariant
            i <= spans.len(),
            all@.len() == i,
            forall|k: int|
                0 <= k < i ==> (#[trigger] all@[k]).deep_view() == measured(spans@[k].deep_view()),
        decreases spans.len() - i,
    {
        all.push(measure(&spans[i]));
        i = i + 1;
    }
    assert(all.deep_view() =~= spans.deep_view().map_values(|s: SpanV| measured(s)));
    all
}

/// The columns that pieces take one after the other.
pub open spec fn total_columns(spans: Seq<SpanV>) -> nat
    decreases spans.len(),
{
    if spans.len() == 0 {
        0
    } else {
        total_columns(spans.drop_last()) + columns_of(spans.last().text)
    }
}

/// Adds up the columns of some pieces.
pub fn width_of(spans: &[Span]) -> (width: u128)
    ensures
        width as nat == total_columns(spans.deep_view()),
{
    let mut width: u128 = 0;
    let mut i: usize = 0;
    let ghost all = spans.deep_view();
    assert(all.take(0) =~= Seq::empty());
    while i < spans.len()
        invariant
            i <= spans.len(),
            all == spans.deep_view(),
            width as nat == total_columns(all.take(i as int)),
            width <= i * 0xffff_ffff_ffff_ffff,
        decreases spans.len() - i,
    {
        let columns: usize = columns(spans[i].text.as_str());
        assert(i < 0xffff_ffff_ffff_ffff);
        width = width + columns as u128;
        i = i + 1;
        assert(all.take(i as int).drop_last() =~= all.take(i - 1));
    }
    assert(all.take(i as int) =~= all);
    width
}

} // verus!
