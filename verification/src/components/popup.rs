//! The sizes of boxes that lie over a screen: as high as their wrapped lines.

use crate::components::span::{total_columns, width_of, Span, SpanV};
use crate::input::{greatest, least};
use vstd::prelude::*;

verus! {

/// The rows that a line takes once it is wrapped: at least one.
pub open spec fn wrapped_rows(columns: nat, text_width: nat) -> int {
    let width = greatest(least(columns as int, 65535), 1);
    let room = greatest(text_width as int, 1);
    (width + room - 1) / room
}

/// The rows that all lines take.
pub open spec fn all_rows_of(widths: Seq<nat>, text_width: nat) -> int
    decreases widths.len(),
{
    if widths.len() == 0 {
        0
    } else {
        all_rows_of(widths.drop_last(), text_width) + wrapped_rows(widths.last(), text_width)
    }
}

/// The widths of some lines.
pub open spec fn line_widths(lines: Seq<Seq<SpanV>>) -> Seq<nat> {
    lines.map_values(|line: Seq<SpanV>| total_columns(line))
}

/// The rows that lines of the given widths take; no more than can be counted.
pub fn wrapped_height(widths: &Vec<u128>, text_width: u16) -> (height: u16)
    ensures
        height as int == least(
            all_rows_of(widths@.map_values(|w: u128| w as nat), text_width as nat),
            65535,
        ),
{
    let ghost all = widths@.map_values(|w: u128| w as nat);
    let room: u32 = if text_width == 0 {
        1
    } else {
        text_width as u32
    };
    let mut height: u16 = 0;
    let mut i: usize = 0;
    assert(all.take(0) =~= Seq::empty());
    while i < widths.len()
        invariant
            i <= widths.len(),
            all == widths@.map_values(|w: u128| w as nat),
            room as int == greatest(text_width as int, 1),
            height as int == least(all_rows_of(all.take(i as int), text_width as nat), 65535),
            all_rows_of(all.take(i as int), text_width as nat) >= 0,
        decreases widths.len() - i,
    {
        let width: u32 = if widths[i] == 0 {
            1
        } else if widths[i] > 65535 {
            65535
        } else {
            widths[i] as u32
        };
        let rows: u32 = (width + room - 1) / room;
        assert(rows <= width) by (nonlinear_arith)
            requires
                rows == (width + room - 1) / (room as int),
                room >= 1,
                width >= 1,
        ;
        let sum: u32 = height as u32 + rows;
        height = if sum > 65535 {
            65535
        } else {
            sum as u16
        };
        i = i + 1;
        assert(all.take(i as int).drop_last() =~= all.take(i - 1));
        assert(all.take(i as int).last() == widths@[i - 1] as nat);
    }
    assert(all.take(i as int) =~= all);
    height
}

/// The rows that lines take once they are wrapped.
pub open spec fn content_height(lines: Seq<Seq<SpanV>>, text_width: nat) -> int {
    least(all_rows_of(line_widths(lines), text_width), 65535)
}

/// The rows that lines take once they are wrapped.
pub fn wrapped_content_height(lines: &Vec<Vec<Span>>, text_width: u16) -> (height: u16)
    ensures
        height as int == content_height(lines.deep_view(), text_width as nat),
{
    let mut widths: Vec<u128> = Vec::new();
    let mut i: usize = 0;
    while i < lines.len()
        invariant
            i <= lines.len(),
            widths@.len() == i,
            forall|k: int|
                0 <= k < i ==> (#[trigger] widths@[k]) as nat == total_columns(
                    lines@[k].deep_view(),
                ),
        decreases lines.len() - i,
    {
        let line: &[Span] = lines[i].as_slice();
        assert(line.deep_view() =~= lines@[i as int].deep_view());
        widths.push(width_of(line));
        i = i + 1;
    }
    assert(widths@.map_values(|w: u128| w as nat) =~= line_widths(lines.deep_view()));
    wrapped_height(&widths, text_width)
}

/// How wide a box is: a few columns of the screen stay free, unless the box would be too
/// narrow.
pub open spec fn box_width(area_width: int, least_width: int) -> int {
    greatest(least(greatest(area_width - 4, 0), 100), least_width)
}

/// How high a box is: `frame` rows lie round its text, as far as the screen has room.
pub open spec fn box_height(content: int, frame: int, area_height: int) -> int {
    least(least(content + frame, 65535), greatest(area_height, 1))
}

fn width_within(area_width: u16, least_width: u16) -> (width: u16)
    requires
        least_width <= 100,
    ensures
        width as int == box_width(area_width as int, least_width as int),
{
    let free: u16 = if area_width < 4 {
        0
    } else {
        area_width - 4
    };
    if free > 100 {
        100
    } else if free < least_width {
        least_width
    } else {
        free
    }
}

fn height_within(content: u16, frame: u16, area_height: u16) -> (height: u16)
    ensures
        height as int == box_height(content as int, frame as int, area_height as int),
{
    let wanted: u16 = if content > 65535 - frame {
        65535
    } else {
        content + frame
    };
    let room: u16 = if area_height == 0 {
        1
    } else {
        area_height
    };
    if wanted < room {
        wanted
    } else {
        room
    }
}

/// The size of the box of a notice.
pub open spec fn toast_box(lines: Seq<Seq<SpanV>>, area_width: int, area_height: int) -> (int, int) {
    let width = box_width(area_width, 1);
    let text_width = greatest(width - 4, 1) as nat;
    (width, box_height(content_height(lines, text_width), 2, area_height))
}

/// How wide and high the box of a notice is.
pub fn toast_size(lines: &Vec<Vec<Span>>, area_width: u16, area_height: u16) -> (size: (u16, u16))
    ensures
        (size.0 as int, size.1 as int) == toast_box(
            lines.deep_view(),
            area_width as int,
            area_height as int,
        ),
{
    let width = width_within(area_width, 1);
    let text_width: u16 = if width <= 5 {
        1
    } else {
        width - 4
    };
    let content = wrapped_content_height(lines, text_width);
    (width, height_within(content, 2, area_height))
}

/// The size of the box of a dialog.
pub open spec fn dialog_box(lines: Seq<Seq<SpanV>>, area_width: int, area_height: int) -> (
    int,
    int,
) {
    let width = box_width(area_width, 20);
    let text_width = greatest(width - 6, 1) as nat;
    (width, box_height(content_height(lines, text_width), 4, area_height))
}

/// How wide and high the box of a dialog is.
pub fn dialog_size(lines: &Vec<Vec<Span>>, area_width: u16, area_height: u16) -> (size: (u16, u16))
    ensures
        (size.0 as int, size.1 as int) == dialog_box(
            lines.deep_view(),
            area_width as int,
            area_height as int,
        ),
{
    let width = width_within(area_width, 20);
    let content = wrapped_content_height(lines, width - 6);
    (width, height_within(content, 4, area_height))
}

} // verus!
