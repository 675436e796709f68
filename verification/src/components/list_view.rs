//! Lists of rows: which rows are visible, which is selected and what the list is called.

use crate::components::list_row::{checked_right_align_suffix, sides_fit, suffixed, truncate_spans, truncated};
use crate::components::span::{append_line, Span, SpanV};
use crate::input::{greatest, SearchableList, SearchableListV};
use crate::text::{concat3, decimal, decimal_text, owned};
use vstd::prelude::*;
use vstd::string::*;

verus! {

/// The two sides of a row.
#[derive(Debug, PartialEq, Eq)]
pub struct RowParts {
    pub left: Vec<Span>,
    pub suffix: Vec<Span>,
}

#[verifier::ext_equal]
pub struct RowPartsV {
    pub left: Seq<SpanV>,
    pub suffix: Seq<SpanV>,
}

impl DeepView for RowParts {
    type V = RowPartsV;

    open spec fn deep_view(&self) -> RowPartsV {
        RowPartsV { left: self.left.deep_view(), suffix: self.suffix.deep_view() }
    }
}

/// A row cut to a width, its suffix at the right edge; nothing where the sides overlap.
pub open spec fn fitted_row(parts: RowPartsV, row_width: nat) -> Option<Seq<SpanV>> {
    if parts.suffix.len() == 0 {
        Some(truncated(parts.left, row_width))
    } else if sides_fit(parts.left, parts.suffix, row_width) {
        Some(suffixed(parts.left, parts.suffix, row_width))
    } else {
        None
    }
}

/// Cuts a row to a width.
pub fn fit_row(parts: &RowParts, row_width: usize) -> (row: Option<Vec<Span>>)
    ensures
        row.deep_view() == fitted_row(parts.deep_view(), row_width as nat),
{
    let left: &[Span] = parts.left.as_slice();
    let suffix: &[Span] = parts.suffix.as_slice();
    assert(left.deep_view() =~= parts.left.deep_view());
    assert(suffix.deep_view() =~= parts.suffix.deep_view());
    if suffix.len() == 0 {
        Some(truncate_spans(left, row_width))
    } else {
        checked_right_align_suffix(left, suffix, row_width)
    }
}

/// All rows cut to a width; nothing where the sides of one of them overlap.
pub open spec fn fitted_rows(rows: Seq<RowPartsV>, row_width: nat) -> Option<Seq<Seq<SpanV>>>
    decreases rows.len(),
{
    if rows.len() == 0 {
        Some(Seq::empty())
    } else {
        match (fitted_rows(rows.drop_last(), row_width), fitted_row(rows.last(), row_width)) {
            (Some(before), Some(row)) => Some(before.push(row)),
            _ => None,
        }
    }
}

proof fn lemma_fitted_prefix(rows: Seq<RowPartsV>, count: int, row_width: nat)
    requires
        0 <= count <= rows.len(),
        fitted_rows(rows.take(count), row_width) is None,
    ensures
        fitted_rows(rows, row_width) is None,
    decreases rows.len() - count,
{
    if count == rows.len() {
        assert(rows.take(count) =~= rows);
    } else {
        assert(rows.take(count + 1).drop_last() =~= rows.take(count));
        lemma_fitted_prefix(rows, count + 1, row_width);
    }
}

/// Cuts all rows to a width.
pub fn fit_rows(rows: &Vec<RowParts>, row_width: usize) -> (fitted: Option<Vec<Vec<Span>>>)
    ensures
        fitted.deep_view() == fitted_rows(rows.deep_view(), row_width as nat),
{
    let ghost all = rows.deep_view();
    let mut fitted: Vec<Vec<Span>> = Vec::new();
    let mut i: usize = 0;
    assert(fitted.deep_view() =~= Seq::empty());
    while i < rows.len()
        invariant
            i <= rows.len(),
            all == rows.deep_view(),
            Some(fitted.deep_view()) == fitted_rows(all.take(i as int), row_width as nat),
        decreases rows.len() - i,
    {
        assert(all.take(i + 1).drop_last() =~= all.take(i as int));
        assert(all.take(i + 1).last() == rows@[i as int].deep_view());
        match fit_row(&rows[i], row_width) {
            Some(row) => {
                append_line(&mut fitted, row);
            },
            None => {
                proof {
                    lemma_fitted_prefix(all, i + 1, row_width as nat);
                }
                return None;
            },
        }
        i = i + 1;
    }
    assert(all.take(i as int) =~= all);
    Some(fitted)
}

/// A list as it is shown.
#[derive(Debug, PartialEq, Eq)]
pub struct ListView {
    pub rows: Vec<RowParts>,
    /// What stands in place of rows while there are none.
    pub notice: Option<Span>,
    /// Which of the visible rows is selected.
    pub selected: Option<usize>,
    pub title: String,
}

#[verifier::ext_equal]
pub struct ListViewV {
    pub rows: Seq<RowPartsV>,
    pub notice: Option<SpanV>,
    pub selected: Option<usize>,
    pub title: Seq<char>,
}

impl DeepView for ListView {
    type V = ListViewV;

    open spec fn deep_view(&self) -> ListViewV {
        ListViewV {
            rows: self.rows.deep_view(),
            notice: self.notice.deep_view(),
            selected: self.selected,
            title: self.title@,
        }
    }
}

/// How many rows a list of some height has inside of its frame: at least one.
pub open spec fn viewport(list_height: int) -> int {
    greatest(list_height - 2, 1)
}

pub fn viewport_rows(list_height: u16) -> (rows: usize)
    ensures
        rows as int == viewport(list_height as int),
{
    if list_height > 3 {
        (list_height - 2) as usize
    } else {
        1
    }
}

/// Where the selected position stands among the visible ones.
pub open spec fn place_of(items: Seq<(usize, usize)>, wanted: usize) -> Option<usize>
    decreases items.len(),
{
    if items.len() == 0 {
        None
    } else {
        match place_of(items.drop_last(), wanted) {
            Some(place) => Some(place),
            None => if items.last().0 == wanted {
                Some((items.len() - 1) as usize)
            } else {
                None
            },
        }
    }
}

/// Which of the visible rows of a list is selected.
pub open spec fn selected_place(list: SearchableListV, rows: int) -> Option<usize> {
    match list.selected {
        Some(position) => place_of(list.visible(rows), position),
        None => None,
    }
}

proof fn lemma_place_of_prefix(items: Seq<(usize, usize)>, wanted: usize, count: int)
    requires
        0 <= count <= items.len(),
        place_of(items.take(count), wanted) is Some,
    ensures
        place_of(items, wanted) == place_of(items.take(count), wanted),
    decreases items.len() - count,
{
    if count == items.len() {
        assert(items.take(count) =~= items);
    } else {
        assert(items.take(count + 1).drop_last() =~= items.take(count));
        lemma_place_of_prefix(items, wanted, count + 1);
    }
}

/// Finds the selected position among the visible ones.
pub fn find_selected(items: &Vec<(usize, usize)>, selected: Option<usize>) -> (place: Option<usize>)
    ensures
        place == match selected {
            Some(position) => place_of(items@, position),
            None => None,
        },
{
    let wanted: usize = match selected {
        Some(position) => position,
        None => return None,
    };
    let mut i: usize = 0;
    assert(items@.take(0) =~= Seq::empty());
    while i < items.len()
        invariant
            i <= items.len(),
            selected == Some(wanted),
            place_of(items@.take(i as int), wanted) is None,
        decreases items.len() - i,
    {
        assert(items@.take(i + 1).drop_last() =~= items@.take(i as int));
        if items[i].0 == wanted {
            proof {
                lemma_place_of_prefix(items@, wanted, i + 1);
            }
            return Some(i);
        }
        i = i + 1;
    }
    assert(items@.take(i as int) =~= items@);
    None
}

/// The selected row is among the visible ones, once the list is scrolled to it.
pub proof fn lemma_selection_is_visible(list: SearchableListV, rows: int)
    requires
        list.selected matches Some(position) && position < list.filtered.len(),
        list.filtered.len() <= usize::MAX,
    ensures
        selected_place(list, rows) matches Some(place) && place < list.visible(rows).len()
            && list.visible(rows)[place as int].0 == list.selected->0,
{
    let wanted = list.selected->0;
    let items = list.visible(rows);
    let at = if list.selected_outside(rows) is Some {
        if wanted < list.window_start() {
            0
        } else {
            items.len() - 1
        }
    } else {
        wanted - list.window_start()
    };
    assert(items[at].0 == wanted);
    lemma_place_found(items, wanted, at);
}

proof fn lemma_place_found(items: Seq<(usize, usize)>, wanted: usize, at: int)
    requires
        0 <= at < items.len(),
        items[at].0 == wanted,
        items.len() <= usize::MAX + 1,
    ensures
        place_of(items, wanted) matches Some(place) && place < items.len()
            && items[place as int].0 == wanted,
    decreases items.len(),
{
    let rest = items.drop_last();
    if at < items.len() - 1 {
        assert(rest[at] == items[at]);
        lemma_place_found(rest, wanted, at);
    } else {
        lemma_place_sound(rest, wanted);
    }
}

proof fn lemma_place_sound(items: Seq<(usize, usize)>, wanted: usize)
    requires
        items.len() <= usize::MAX + 1,
    ensures
        place_of(items, wanted) matches Some(place) ==> place < items.len()
            && items[place as int].0 == wanted,
    decreases items.len(),
{
    if items.len() > 0 {
        lemma_place_sound(items.drop_last(), wanted);
    }
}

/// What a list is called: how many of its rows match, and what is going on.
pub open spec fn list_title(
    shown: nat,
    total: nat,
    noun: Seq<char>,
    suffix: Seq<char>,
) -> Seq<char> {
    " "@ + decimal(shown) + " of "@ + decimal(total) + " "@ + noun + suffix + " "@
}

pub fn title_of(shown: usize, total: usize, noun: &str, suffix: &str) -> (title: String)
    ensures
        title@ == list_title(shown as nat, total as nat, noun@, suffix@),
{
    let mut title = owned(" ");
    title.push_str(decimal_text(shown as u64).as_str());
    title.push_str(" of ");
    title.push_str(decimal_text(total as u64).as_str());
    title.push_str(" ");
    title.push_str(noun);
    title.push_str(suffix);
    title.push_str(" ");
    title
}

/// The picture of a turning wheel that is shown some milliseconds after it started.
pub open spec fn spinner_picture(millis: nat) -> char {
    "⠋⠙⠹⠸⠼⠴⠦⠧⠇⠏"@[((millis / 80) % 10) as int]
}

/// The picture of the wheel: ten of them, each for 80 milliseconds.
pub fn spinner(millis: u64) -> (picture: char)
    ensures
        picture == spinner_picture(millis as nat),
{
    proof {
        reveal_strlit("⠋⠙⠹⠸⠼⠴⠦⠧⠇⠏");
    }
    let frame: u64 = (millis / 80) % 10;
    match frame {
        0 => '⠋',
        1 => '⠙',
        2 => '⠹',
        3 => '⠸',
        4 => '⠼',
        5 => '⠴',
        6 => '⠦',
        7 => '⠧',
        8 => '⠇',
        _ => '⠏',
    }
}

/// A turning wheel with what it stands for.
pub open spec fn spinner_suffix(label: Seq<char>, millis: nat) -> Seq<char> {
    " | "@ + label + "… "@.push(spinner_picture(millis))
}

pub fn busy_suffix(label: &str, millis: u64) -> (suffix: String)
    ensures
        suffix@ == spinner_suffix(label@, millis as nat),
{
    let mut suffix = concat3(" | ", label, "… ");
    suffix.push(spinner(millis));
    assert(suffix@ =~= spinner_suffix(label@, millis as nat));
    suffix
}

/// Scrolls a list so that its selection is visible in a list of some height.
pub fn scroll_list(list: &mut SearchableList, list_height: u16) -> (rows: usize)
    ensures
        rows as int == viewport(list_height as int),
        final(list).deep_view() == (SearchableListV {
            scroll_offset: old(list).deep_view().scrolled(viewport(list_height as int)) as usize,
            ..old(list).deep_view()
        }),
{
    let rows = viewport_rows(list_height);
    list.update_scroll_offset(rows);
    rows
}

} // verus!
