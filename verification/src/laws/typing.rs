//! Typing, and walking to a pane.

use crate::focus::{direction_between, FocusStepV, FocusWalkV, PaneRect};
use crate::input::{last_word_start, lemma_flattened_split, lemma_index_behind, TextInputV};
use crate::text::{byte_len, flattened, trimmed_end, white_space};
use vstd::prelude::*;
use vstd::string::*;

verus! {

/// Whether the cursor stands behind so many clusters of the text.
pub open spec fn stands_behind(input: TextInputV, count: int) -> bool {
    &&& 0 <= count <= input.clusters().len()
    &&& input.clusters_filled()
    &&& input.text == flattened(input.clusters())
    &&& input.cursor == byte_len(flattened(input.clusters().take(count)))
}

/// What is typed goes where the cursor stands: what stood before it and behind it stays, and the
/// cursor then stands behind what was typed.
pub proof fn lemma_typing_goes_to_the_cursor(input: TextInputV, count: int, character: char)
    requires
        stands_behind(input, count),
    ensures
        ({
            let before = flattened(input.clusters().take(count));
            let behind = flattened(input.clusters().skip(count));
            let after = input.inserted(character);
            &&& input.text == before + behind
            &&& after.text == before.push(character) + behind
            &&& after.cursor == byte_len(before.push(character))
        }),
{
    lemma_index_behind(input.clusters(), count);
    lemma_flattened_split(input.clusters(), count);
}

/// Taking back takes the cluster before the cursor and nothing else; at the start there is
/// nothing to take.
pub proof fn lemma_taking_back_takes_one_cluster(input: TextInputV, count: int)
    requires
        stands_behind(input, count),
    ensures
        ({
            let behind = flattened(input.clusters().skip(count));
            let after = input.without_previous();
            &&& count > 0 ==> after.text == flattened(input.clusters().take(count - 1)) + behind
                && after.cursor == byte_len(flattened(input.clusters().take(count - 1)))
            &&& count == 0 ==> after.text == input.text && after.cursor == 0
        }),
{
    lemma_index_behind(input.clusters(), count);
    lemma_flattened_split(input.clusters(), count);
    assert(input.clusters().take(0) =~= Seq::<Seq<char>>::empty());
    if count == 0 {
        reveal_with_fuel(vstd::utf8::encode_utf8, 1);
    }
}

/// Taking back a word takes the end of what stands before the cursor: white space, and before it
/// one word with none in it. What stands behind the cursor stays, and so does the rest.
pub proof fn lemma_taking_back_takes_one_word(input: TextInputV, count: int)
    requires
        stands_behind(input, count),
        input.cursor > 0,
        input.text.len() > 0,
    ensures
        ({
            let before = flattened(input.clusters().take(count));
            let behind = flattened(input.clusters().skip(count));
            let after = input.without_word();
            exists|start: int, end: int|
                #![trigger before.subrange(start, end)]
                {
                    &&& 0 <= start <= end <= before.len()
                    &&& after.text == before.take(start) + behind
                    &&& after.cursor == byte_len(before.take(start))
                    &&& forall|i: int| start <= i < end ==> !white_space(#[trigger] before[i])
                    &&& forall|i: int| end <= i < before.len() ==> white_space(#[trigger] before[i])
                    &&& start > 0 ==> white_space(before[start - 1])
                }
        }),
{
    lemma_index_behind(input.clusters(), count);
    let before = flattened(input.clusters().take(count));
    lemma_trimmed_end(before);
    let kept = trimmed_end(before);
    lemma_last_word_start(kept);
    let (start, end) = (last_word_start(kept), kept.len() as int);
    assert(before.subrange(start, end).len() == end - start);
    assert forall|i: int| start <= i < end implies !white_space(#[trigger] before[i]) by {
        assert(kept[i] == before[i]);
    }
    if start > 0 {
        assert(kept[start - 1] == before[start - 1]);
    }
}

proof fn lemma_trimmed_end(text: Seq<char>)
    ensures
        trimmed_end(text).len() <= text.len(),
        trimmed_end(text) == text.take(trimmed_end(text).len() as int),
        forall|i: int| trimmed_end(text).len() <= i < text.len() ==> white_space(#[trigger] text[i]),
    decreases text.len(),
{
    if text.len() > 0 && white_space(text.last()) {
        let shorter = text.drop_last();
        lemma_trimmed_end(shorter);
        let kept = trimmed_end(shorter);
        assert(text.take(kept.len() as int) =~= shorter.take(kept.len() as int));
        assert forall|i: int| kept.len() <= i < text.len() implies white_space(
            #[trigger] text[i],
        ) by {
            if i < shorter.len() {
                assert(shorter[i] == text[i]);
            }
        }
    } else {
        assert(text.take(text.len() as int) =~= text);
    }
}

proof fn lemma_last_word_start(text: Seq<char>)
    ensures
        0 <= last_word_start(text) <= text.len(),
        forall|i: int| last_word_start(text) <= i < text.len() ==> !white_space(#[trigger] text[i]),
        last_word_start(text) > 0 ==> white_space(text[last_word_start(text) - 1]),
    decreases text.len(),
{
    if text.len() > 0 && !white_space(text.last()) {
        let shorter = text.drop_last();
        lemma_last_word_start(shorter);
        assert forall|i: int| last_word_start(text) <= i < text.len() implies !white_space(
            #[trigger] text[i],
        ) by {
            if i < shorter.len() {
                assert(shorter[i] == text[i]);
            }
        }
    }
}

/// The cursor moves by one cluster and stays in the text; the text stays.
pub proof fn lemma_cursor_moves_by_one_cluster(input: TextInputV, count: int)
    requires
        stands_behind(input, count),
    ensures
        input.moved_left().text == input.text,
        input.moved_right().text == input.text,
        input.moved_left().cursor == byte_len(
            flattened(
                input.clusters().take(
                    if count > 0 {
                        count - 1
                    } else {
                        0
                    },
                ),
            ),
        ),
        input.moved_right().cursor == byte_len(
            flattened(
                input.clusters().take(
                    if count < input.clusters().len() {
                        count + 1
                    } else {
                        count
                    },
                ),
            ),
        ),
{
    lemma_index_behind(input.clusters(), count);
}

/// The way to a pane leads in the direction in which it lies: to the right where it starts behind
/// the right edge, to the left where it ends before the left edge, and else down or up.
pub proof fn lemma_way_leads_to_the_pane(source: PaneRect, target: PaneRect)
    requires
        source.x + source.width <= u16::MAX,
        source.y + source.height <= u16::MAX,
        target.x + target.width <= u16::MAX,
    ensures
        target.x >= source.x + source.width ==> direction_between(source, target) == "right"@,
        target.x < source.x + source.width && source.x >= target.x + target.width
            ==> direction_between(source, target) == "left"@,
        target.x < source.x + source.width && source.x < target.x + target.width && target.y
            >= source.y + source.height ==> direction_between(source, target) == "down"@,
        target.x < source.x + source.width && source.x < target.x + target.width && target.y
            < source.y + source.height ==> direction_between(source, target) == "up"@,
{
}

/// A walk has arrived only at its pane; as long as it has not, it moves from where it is, and it
/// ends after so many moves. A move that leads nowhere ends it.
pub proof fn lemma_walk_ends_at_its_pane(walk: FocusWalkV, focused: Option<Seq<char>>)
    requires
        walk.wf(),
    ensures
        walk.step() is Arrived ==> walk.focused == walk.target,
        walk.step() matches FocusStepV::Move { from, .. } ==> from == walk.focused && walk.focused
            != walk.target && walk.moves_left > 0,
        walk.moves_left > 0 && walk.focused == walk.target ==> walk.step() is Arrived,
        walk.moves_left > 0 && focused is Some && focused->0 != walk.focused ==> walk.moved(
            focused,
        ).focused == focused->0 && walk.moved(focused).moves_left == walk.moves_left - 1,
        focused is None || focused == Some(walk.focused) ==> walk.moved(focused).step() is Failed,
        walk.moved(focused).target == walk.target,
        walk.moved(focused).panes == walk.panes,
{
}

} // verus!
