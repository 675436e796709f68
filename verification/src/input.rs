//! A line of editable text and a filtered list with a selection.

use crate::text::{byte_len, chars_of, flattened, graphemes, graphemes_of, is_white_space, lemma_encode_concat, length, text_of, slice_of, trimmed_end, white_space};
use vstd::prelude::*;
use vstd::string::*;

verus! {

/// Editable text with a cursor, which is a byte offset into it.
#[derive(Debug, PartialEq, Eq)]
pub struct TextInput {
    pub text: String,
    pub cursor: usize,
}

/// The contents of a [`TextInput`].
pub struct TextInputV {
    pub text: Seq<char>,
    pub cursor: nat,
}

impl DeepView for TextInput {
    type V = TextInputV;

    open spec fn deep_view(&self) -> TextInputV {
        TextInputV { text: self.text@, cursor: self.cursor as nat }
    }
}

/// How many whole clusters lie before the byte offset `cursor`.
pub open spec fn clusters_before(clusters: Seq<Seq<char>>, cursor: int) -> nat
    decreases clusters.len(),
{
    if clusters.len() > 0 && byte_len(clusters[0]) <= cursor {
        1 + clusters_before(clusters.drop_first(), cursor - byte_len(clusters[0]))
    } else {
        0
    }
}

/// No cluster is empty.
pub open spec fn filled(clusters: Seq<Seq<char>>) -> bool {
    forall|i: int| 0 <= i < clusters.len() ==> (#[trigger] clusters[i]).len() > 0
}

/// What follows the first `count` clusters.
pub open spec fn tail_text(clusters: Seq<Seq<char>>, count: int) -> Seq<char> {
    flattened(clusters.skip(count))
}

/// Where the last word of a text starts, and the white space behind it ends: the position
/// behind the last white space that precedes that word.
pub open spec fn last_word_start(before: Seq<char>) -> int
    decreases before.len(),
{
    if before.len() == 0 || white_space(before.last()) {
        before.len() as int
    } else {
        last_word_start(before.drop_last())
    }
}

impl TextInputV {
    pub open spec fn clusters(self) -> Seq<Seq<char>> {
        graphemes_of(self.text)
    }

    /// The cluster that the cursor stands on: a cursor inside of a cluster counts as before
    /// it, one past the end as at the end.
    pub open spec fn index(self) -> int {
        clusters_before(self.clusters(), self.cursor as int) as int
    }

    /// The text before the first `count` clusters end.
    pub open spec fn head(self, count: int) -> Seq<char> {
        flattened(self.clusters().take(count))
    }

    pub open spec fn tail(self, count: int) -> Seq<char> {
        tail_text(self.clusters(), count)
    }

    /// What stands before and behind the cursor is the text.
    pub open spec fn split_at_cursor(self) -> bool {
        self.head(self.index()) + self.tail(self.index()) == self.text
    }

    /// No cluster is empty.
    pub open spec fn clusters_filled(self) -> bool {
        filled(self.clusters())
    }

    /// The same text with the cursor behind `count` clusters.
    pub open spec fn at(self, count: int) -> TextInputV {
        TextInputV { text: self.text, cursor: byte_len(self.head(count)) }
    }

    /// One character added at the cursor, which then stands behind it.
    pub open spec fn inserted(self, character: char) -> TextInputV {
        inserted_into(self.clusters(), self.cursor, character)
    }

    /// The cluster before the cursor removed.
    pub open spec fn without_previous(self) -> TextInputV {
        let index = self.index();
        if index > 0 {
            let before = self.head(index - 1);
            TextInputV { text: before + self.tail(index), cursor: byte_len(before) }
        } else {
            self.at(0)
        }
    }

    /// The word before the cursor removed, with the white space between it and the cursor.
    pub open spec fn without_word(self) -> TextInputV {
        if self.cursor == 0 || self.text.len() == 0 {
            self
        } else {
            word_removed(self.clusters(), self.cursor)
        }
    }

    pub open spec fn moved_left(self) -> TextInputV {
        TextInputV { text: self.text, cursor: left_of(self.clusters(), self.cursor) }
    }

    pub open spec fn moved_right(self) -> TextInputV {
        TextInputV { text: self.text, cursor: right_of(self.clusters(), self.cursor) }
    }
}

/// A change of what was typed.
#[derive(Debug, Clone, Copy, PartialEq, Eq, Structural)]
pub enum Edit {
    Insert(char),
    Backspace,
    DeleteWord,
    Clear,
}

impl TextInputV {
    pub open spec fn edited(self, edit: Edit) -> TextInputV {
        match edit {
            Edit::Insert(character) => self.inserted(character),
            Edit::Backspace => self.without_previous(),
            Edit::DeleteWord => self.without_word(),
            Edit::Clear => TextInputV { text: Seq::empty(), cursor: 0 },
        }
    }
}

/// The first clusters and the rest make up all of them.
pub proof fn lemma_flattened_split(clusters: Seq<Seq<char>>, count: int)
    requires
        0 <= count <= clusters.len(),
    ensures
        flattened(clusters.take(count)) + tail_text(clusters, count) == flattened(clusters),
    decreases clusters.len() - count,
{
    if count == clusters.len() {
        assert(clusters.take(count) =~= clusters);
        assert(clusters.skip(count) =~= Seq::<Seq<char>>::empty());
        assert(flattened(clusters) + Seq::<char>::empty() =~= flattened(clusters));
    } else {
        let shorter = clusters.drop_last();
        lemma_flattened_split(shorter, count);
        assert(shorter.take(count) =~= clusters.take(count));
        assert(clusters.skip(count).drop_last() =~= shorter.skip(count));
        assert(clusters.skip(count).last() == clusters.last());
        assert(flattened(clusters.take(count)) + (tail_text(shorter, count) + clusters.last())
            =~= (flattened(clusters.take(count)) + tail_text(shorter, count)) + clusters.last());
    }
}

proof fn lemma_flattened_step(clusters: Seq<Seq<char>>, count: int)
    requires
        0 <= count < clusters.len(),
    ensures
        flattened(clusters.take(count + 1)) == flattened(clusters.take(count)) + clusters[count],
        byte_len(flattened(clusters.take(count + 1))) == byte_len(flattened(clusters.take(count)))
            + byte_len(clusters[count]),
{
    assert(clusters.take(count + 1).drop_last() =~= clusters.take(count));
    lemma_encode_concat(flattened(clusters.take(count)), clusters[count]);
}

/// The first `count` clusters as one text.
fn head_of(clusters: &Vec<String>, count: usize) -> (text: String)
    requires
        count <= clusters.len(),
    ensures
        text@ == flattened(clusters.deep_view().take(count as int)),
{
    let ghost all = clusters.deep_view();
    let mut text = String::new();
    let mut i: usize = 0;
    assert(all.take(0) =~= Seq::<Seq<char>>::empty());
    while i < count
        invariant
            i <= count <= clusters.len(),
            all == clusters.deep_view(),
            text@ == flattened(all.take(i as int)),
        decreases count - i,
    {
        text.push_str(clusters[i].as_str());
        proof {
            lemma_flattened_step(all, i as int);
        }
        i = i + 1;
    }
    text
}

/// The clusters from `count` on as one text.
fn tail_of(clusters: &Vec<String>, count: usize) -> (text: String)
    requires
        count <= clusters.len(),
    ensures
        text@ == tail_text(clusters.deep_view(), count as int),
{
    let ghost all = clusters.deep_view();
    let ghost rest = all.skip(count as int);
    let mut text = String::new();
    let mut i: usize = count;
    assert(rest.take(0) =~= Seq::<Seq<char>>::empty());
    while i < clusters.len()
        invariant
            count <= i <= clusters.len(),
            all == clusters.deep_view(),
            rest == all.skip(count as int),
            text@ == flattened(rest.take(i - count)),
        decreases clusters.len() - i,
    {
        text.push_str(clusters[i].as_str());
        proof {
            lemma_flattened_step(rest, i - count);
            assert(rest[i - count] == clusters@[i as int]@);
        }
        i = i + 1;
    }
    assert(rest.take(rest.len() as int) =~= rest);
    text
}

proof fn lemma_clusters_before_bound(clusters: Seq<Seq<char>>, cursor: int)
    ensures
        clusters_before(clusters, cursor) <= clusters.len(),
    decreases clusters.len(),
{
    if clusters.len() > 0 && byte_len(clusters[0]) <= cursor {
        lemma_clusters_before_bound(clusters.drop_first(), cursor - byte_len(clusters[0]));
    }
}

/// The cluster that a cursor stands on.
pub fn cluster_index(clusters: &Vec<String>, cursor: usize) -> (index: usize)
    ensures
        index as int == clusters_before(clusters.deep_view(), cursor as int),
        index <= clusters.len(),
{
    let ghost all = clusters.deep_view();
    let mut left: usize = cursor;
    let mut index: usize = 0;
    assert(all.skip(0) =~= all);
    while index < clusters.len() && length(clusters[index].as_str()) <= left
        invariant
            index <= clusters.len(),
            all == clusters.deep_view(),
            clusters_before(all, cursor as int) == index + clusters_before(
                all.skip(index as int),
                left as int,
            ),
        decreases clusters.len() - index,
    {
        proof {
            assert(all.skip(index as int)[0] == clusters@[index as int]@);
            assert(all.skip(index as int).drop_first() =~= all.skip(index + 1));
        }
        left = left - length(clusters[index].as_str());
        index = index + 1;
    }
    proof {
        if index < clusters.len() {
            assert(all.skip(index as int)[0] == clusters@[index as int]@);
        } else {
            assert(all.skip(index as int) =~= Seq::<Seq<char>>::empty());
        }
    }
    index
}

/// The clusters with one character more at the cursor, which then stands behind it.
pub open spec fn inserted_into(clusters: Seq<Seq<char>>, cursor: nat, character: char) -> TextInputV {
    let index = clusters_before(clusters, cursor as int) as int;
    let before = flattened(clusters.take(index)).push(character);
    TextInputV { text: before + tail_text(clusters, index), cursor: byte_len(before) }
}

/// Adds a character to a text that is given by its clusters.
pub fn insert_into(clusters: &Vec<String>, cursor: usize, character: char) -> (input: TextInput)
    ensures
        input.deep_view() == inserted_into(clusters.deep_view(), cursor as nat, character),
{
    let index = cluster_index(clusters, cursor);
    let mut text = head_of(clusters, index);
    text.push(character);
    let cursor = length(text.as_str());
    let rest = tail_of(clusters, index);
    text.push_str(rest.as_str());
    TextInput { text, cursor }
}

/// The clusters without the one before the cursor.
pub open spec fn shortened(clusters: Seq<Seq<char>>, cursor: nat) -> TextInputV {
    let index = clusters_before(clusters, cursor as int) as int;
    if index > 0 {
        let before = flattened(clusters.take(index - 1));
        TextInputV { text: before + tail_text(clusters, index), cursor: byte_len(before) }
    } else {
        TextInputV { text: tail_text(clusters, 0), cursor: 0 }
    }
}

/// Removes the cluster before the cursor from a text that is given by its clusters.
pub fn shorten(clusters: &Vec<String>, cursor: usize) -> (input: TextInput)
    ensures
        input.deep_view() == shortened(clusters.deep_view(), cursor as nat),
{
    let index = cluster_index(clusters, cursor);
    if index > 0 {
        let mut text = head_of(clusters, index - 1);
        let cursor = length(text.as_str());
        let rest = tail_of(clusters, index);
        text.push_str(rest.as_str());
        TextInput { text, cursor }
    } else {
        TextInput { text: tail_of(clusters, 0), cursor: 0 }
    }
}

/// The clusters without the word before the cursor and the white space behind it.
pub open spec fn word_removed(clusters: Seq<Seq<char>>, cursor: nat) -> TextInputV {
    let index = clusters_before(clusters, cursor as int) as int;
    let before = flattened(clusters.take(index));
    let kept = before.take(last_word_start(trimmed_end(before)));
    TextInputV { text: kept + tail_text(clusters, index), cursor: byte_len(kept) }
}

/// Removes the word before the cursor from a text that is given by its clusters.
pub fn remove_word(clusters: &Vec<String>, cursor: usize) -> (input: TextInput)
    ensures
        input.deep_view() == word_removed(clusters.deep_view(), cursor as nat),
{
    let index = cluster_index(clusters, cursor);
    let head = head_of(clusters, index);
    let before = chars_of(head.as_str());
    let mut end: usize = before.len();
    assert(before@.take(before@.len() as int) =~= before@);
    while end > 0 && is_white_space(before[end - 1])
        invariant
            end <= before.len(),
            trimmed_end(before@) == trimmed_end(before@.take(end as int)),
        decreases end,
    {
        assert(before@.take(end as int).drop_last() =~= before@.take(end - 1));
        end = end - 1;
    }
    let ghost trimmed = before@.take(end as int);
    assert(trimmed_end(before@) == trimmed);
    let mut word: usize = end;
    assert(trimmed.take(end as int) =~= trimmed);
    while word > 0 && !is_white_space(before[word - 1])
        invariant
            word <= end <= before.len(),
            trimmed == before@.take(end as int),
            last_word_start(trimmed) == last_word_start(trimmed.take(word as int)),
        decreases word,
    {
        assert(trimmed.take(word as int).drop_last() =~= trimmed.take(word - 1));
        word = word - 1;
    }
    assert(last_word_start(trimmed) == word);
    let kept = slice_of(&before, 0, word);
    assert(kept@ =~= before@.take(word as int));
    let mut text = text_of(kept);
    let cursor = length(text.as_str());
    let rest = tail_of(clusters, index);
    text.push_str(rest.as_str());
    TextInput { text, cursor }
}

/// Where the cursor stands one cluster further left.
pub open spec fn left_of(clusters: Seq<Seq<char>>, cursor: nat) -> nat {
    let index = clusters_before(clusters, cursor as int) as int;
    byte_len(flattened(clusters.take(if index > 0 {
        index - 1
    } else {
        index
    })))
}

/// Moves the cursor one cluster to the left.
pub fn step_left(clusters: &Vec<String>, cursor: usize) -> (target: usize)
    ensures
        target as nat == left_of(clusters.deep_view(), cursor as nat),
{
    let index = cluster_index(clusters, cursor);
    let count: usize = if index > 0 {
        index - 1
    } else {
        index
    };
    let head = head_of(clusters, count);
    length(head.as_str())
}

/// Where the cursor stands one cluster further right.
pub open spec fn right_of(clusters: Seq<Seq<char>>, cursor: nat) -> nat {
    let index = clusters_before(clusters, cursor as int) as int;
    byte_len(flattened(clusters.take(if index < clusters.len() {
        index + 1
    } else {
        index
    })))
}

/// Moves the cursor one cluster to the right.
pub fn step_right(clusters: &Vec<String>, cursor: usize) -> (target: usize)
    ensures
        target as nat == right_of(clusters.deep_view(), cursor as nat),
{
    let index = cluster_index(clusters, cursor);
    let count: usize = if index < clusters.len() {
        index + 1
    } else {
        index
    };
    let head = head_of(clusters, count);
    length(head.as_str())
}

impl TextInput {
    pub fn new() -> (input: TextInput)
        ensures
            input.deep_view() == (TextInputV { text: Seq::empty(), cursor: 0 }),
    {
        TextInput { text: String::new(), cursor: 0 }
    }

    pub fn clear(&mut self)
        ensures
            final(self).deep_view() == (TextInputV { text: Seq::empty(), cursor: 0 }),
    {
        self.text = String::new();
        self.cursor = 0;
    }

    pub fn insert_char(&mut self, character: char)
        ensures
            final(self).deep_view() == old(self).deep_view().inserted(character),
            old(self).deep_view().split_at_cursor(),
    {
        let clusters = graphemes(self.text.as_str());
        proof {
            lemma_clusters_before_bound(clusters.deep_view(), self.cursor as int);
            lemma_flattened_split(clusters.deep_view(), self.deep_view().index());
        }
        *self = insert_into(&clusters, self.cursor, character);
    }

    pub fn backspace(&mut self)
        ensures
            final(self).deep_view() == old(self).deep_view().without_previous(),
            old(self).deep_view().split_at_cursor(),
    {
        let clusters = graphemes(self.text.as_str());
        proof {
            let all = clusters.deep_view();
            lemma_clusters_before_bound(all, self.cursor as int);
            lemma_flattened_split(all, self.deep_view().index());
            assert(all.skip(0) =~= all);
            assert(all.take(0) =~= Seq::<Seq<char>>::empty());
        }
        *self = shorten(&clusters, self.cursor);
    }

    pub fn delete_word(&mut self)
        ensures
            final(self).deep_view() == old(self).deep_view().without_word(),
            old(self).deep_view().split_at_cursor(),
    {
        let clusters = graphemes(self.text.as_str());
        proof {
            lemma_clusters_before_bound(clusters.deep_view(), self.cursor as int);
            lemma_flattened_split(clusters.deep_view(), self.deep_view().index());
        }
        if self.cursor == 0 || self.text.as_str().is_empty() {
            return;
        }
        *self = remove_word(&clusters, self.cursor);
    }

    pub fn edit(&mut self, edit: Edit)
        ensures
            final(self).deep_view() == old(self).deep_view().edited(edit),
    {
        match edit {
            Edit::Insert(character) => self.insert_char(character),
            Edit::Backspace => self.backspace(),
            Edit::DeleteWord => self.delete_word(),
            Edit::Clear => self.clear(),
        }
    }

    pub fn cursor_left(&mut self)
        ensures
            final(self).deep_view() == old(self).deep_view().moved_left(),
            old(self).deep_view().split_at_cursor(),
            old(self).deep_view().clusters_filled(),
    {
        let clusters = graphemes(self.text.as_str());
        proof {
            lemma_clusters_before_bound(clusters.deep_view(), self.cursor as int);
            lemma_flattened_split(clusters.deep_view(), self.deep_view().index());
        }
        self.cursor = step_left(&clusters, self.cursor);
    }

    pub fn cursor_right(&mut self)
        ensures
            final(self).deep_view() == old(self).deep_view().moved_right(),
            old(self).deep_view().split_at_cursor(),
            old(self).deep_view().clusters_filled(),
    {
        let clusters = graphemes(self.text.as_str());
        proof {
            lemma_clusters_before_bound(clusters.deep_view(), self.cursor as int);
            lemma_flattened_split(clusters.deep_view(), self.deep_view().index());
        }
        self.cursor = step_right(&clusters, self.cursor);
    }
}

impl Clone for TextInput {
    fn clone(&self) -> (input: Self)
        ensures
            input.deep_view() == self.deep_view(),
    {
        TextInput { text: self.text.clone(), cursor: self.cursor }
    }
}

impl Default for TextInput {
    fn default() -> (input: Self)
        ensures
            input.deep_view() == (TextInputV { text: Seq::empty(), cursor: 0 }),
    {
        TextInput::new()
    }
}

/// A list whose rows are filtered by a query; `filtered` holds the index of each row that is
/// shown with its score.
#[derive(Debug, PartialEq, Eq)]
pub struct SearchableList {
    pub input: TextInput,
    pub filtered: Vec<(usize, i64)>,
    pub selected: Option<usize>,
    pub scroll_offset: usize,
}

/// The contents of a [`SearchableList`].
pub struct SearchableListV {
    pub input: TextInputV,
    pub filtered: Seq<(usize, i64)>,
    pub selected: Option<usize>,
    pub scroll_offset: usize,
}

impl DeepView for SearchableList {
    type V = SearchableListV;

    open spec fn deep_view(&self) -> SearchableListV {
        SearchableListV {
            input: self.input.deep_view(),
            filtered: self.filtered@,
            selected: self.selected,
            scroll_offset: self.scroll_offset,
        }
    }
}

/// Every row in its own order, without a score.
pub open spec fn all_rows(count: nat) -> Seq<(usize, i64)> {
    Seq::new(count, |i: int| (i as usize, 0i64))
}

pub open spec fn least(a: int, b: int) -> int {
    if a <= b {
        a
    } else {
        b
    }
}

pub open spec fn greatest(a: int, b: int) -> int {
    if a >= b {
        a
    } else {
        b
    }
}

pub fn every_row(count: usize) -> (rows: Vec<(usize, i64)>)
    ensures
        rows@ == all_rows(count as nat),
{
    let mut rows: Vec<(usize, i64)> = Vec::new();
    let mut i: usize = 0;
    while i < count
        invariant
            i <= count,
            rows@ == all_rows(i as nat),
        decreases count - i,
    {
        rows.push((i, 0));
        i = i + 1;
        assert(rows@ =~= all_rows(i as nat));
    }
    rows
}

impl SearchableListV {
    /// A list of `count` rows, all of them shown and the first one selected.
    pub open spec fn fresh(count: nat) -> SearchableListV {
        SearchableListV {
            input: TextInputV { text: Seq::empty(), cursor: 0 },
            filtered: all_rows(count),
            selected: if count > 0 {
                Some(0usize)
            } else {
                None
            },
            scroll_offset: 0,
        }
    }

    /// The selected position, the first where nothing is selected.
    pub open spec fn position(self) -> int {
        match self.selected {
            Some(position) => position as int,
            None => 0,
        }
    }

    /// The selection moved by `delta` rows and kept inside of the list at its far end.
    pub open spec fn moved(self, delta: int) -> SearchableListV {
        if self.filtered.len() == 0 {
            self
        } else {
            let target = if delta > 0 {
                least(self.position() + delta, self.filtered.len() - 1)
            } else {
                greatest(self.position() + delta, 0)
            };
            SearchableListV { selected: Some(target as usize), ..self }
        }
    }

    /// The scroll offset that brings the selection into a viewport of `rows` rows with the
    /// least movement and leaves no blank rows at the end.
    pub open spec fn scrolled(self, rows: int) -> int {
        if self.filtered.len() == 0 {
            0
        } else {
            let rows = greatest(rows, 1);
            let selected = least(self.position(), self.filtered.len() - 1);
            let offset = if selected < self.scroll_offset {
                selected
            } else if selected >= self.scroll_offset + rows {
                selected + 1 - rows
            } else {
                self.scroll_offset as int
            };
            least(offset, greatest(self.filtered.len() - rows, 0))
        }
    }

    /// The first visible position.
    pub open spec fn window_start(self) -> int {
        least(self.scroll_offset as int, self.filtered.len() as int)
    }

    /// The position behind the last visible one.
    pub open spec fn window_end(self, rows: int) -> int {
        least(self.window_start() + greatest(rows, 1), self.filtered.len() as int)
    }

    /// Whether a position is in the window or selected.
    pub open spec fn shown(self, rows: int, position: int) -> bool {
        &&& 0 <= position < self.filtered.len()
        &&& (self.window_start() <= position < self.window_end(rows) || self.selected == Some(
            position as usize,
        ))
    }

    /// The selected position where it lies outside of the window.
    pub open spec fn selected_outside(self, rows: int) -> Option<usize> {
        match self.selected {
            Some(position) => if position < self.filtered.len() && !(self.window_start()
                <= position < self.window_end(rows)) {
                Some(position)
            } else {
                None
            },
            None => None,
        }
    }

    /// The visible positions in order, each with the index of its row.
    pub open spec fn visible(self, rows: int) -> Seq<(usize, usize)> {
        let start = self.window_start();
        let inside = Seq::new(
            (self.window_end(rows) - start) as nat,
            |i: int| ((start + i) as usize, self.filtered[start + i].0),
        );
        match self.selected_outside(rows) {
            Some(position) => if position < start {
                seq![(position, self.filtered[position as int].0)] + inside
            } else {
                inside.push((position, self.filtered[position as int].0))
            },
            None => inside,
        }
    }
}

impl SearchableList {
    pub fn new(item_count: usize) -> (list: SearchableList)
        ensures
            list.deep_view() == SearchableListV::fresh(item_count as nat),
    {
        SearchableList {
            input: TextInput::new(),
            filtered: every_row(item_count),
            selected: if item_count > 0 {
                Some(0)
            } else {
                None
            },
            scroll_offset: 0,
        }
    }

    pub fn move_selection(&mut self, delta: i32)
        ensures
            final(self).deep_view() == old(self).deep_view().moved(delta as int),
    {
        if self.filtered.len() == 0 {
            return;
        }
        let current: usize = match self.selected {
            Some(position) => position,
            None => 0,
        };
        let last: usize = self.filtered.len() - 1;
        if delta > 0 {
            let step: usize = delta as usize;
            let room: usize = if current <= last {
                last - current
            } else {
                0
            };
            self.selected = Some(
                if current > last || step >= room {
                    last
                } else {
                    current + step
                },
            );
        } else {
            let step: i64 = -(delta as i64);
            let step: u64 = step as u64;
            let here: u64 = current as u64;
            self.selected = Some(
                if step >= here {
                    0
                } else {
                    (here - step) as usize
                },
            );
        }
    }

    pub fn update_scroll_offset(&mut self, viewport_rows: usize)
        ensures
            final(self).deep_view() == (SearchableListV {
                scroll_offset: old(self).deep_view().scrolled(viewport_rows as int) as usize,
                ..old(self).deep_view()
            }),
    {
        let count: usize = self.filtered.len();
        if count == 0 {
            self.scroll_offset = 0;
            return;
        }
        let rows: usize = if viewport_rows > 1 {
            viewport_rows
        } else {
            1
        };
        let position: usize = match self.selected {
            Some(position) => position,
            None => 0,
        };
        let selected: usize = if position < count {
            position
        } else {
            count - 1
        };
        if selected < self.scroll_offset {
            self.scroll_offset = selected;
        } else if selected - self.scroll_offset >= rows {
            self.scroll_offset = selected - rows + 1;
        }
        let limit: usize = if count > rows {
            count - rows
        } else {
            0
        };
        if self.scroll_offset > limit {
            self.scroll_offset = limit;
        }
    }

    /// The positions in the window, with the selected one where it lies outside, in
    /// increasing order; each with the index of its row.
    pub fn visible_items(&self, viewport_rows: usize) -> (items: Vec<(usize, usize)>)
        ensures
            items@ == self.deep_view().visible(viewport_rows as int),
            forall|i: int|
                0 <= i < items@.len() ==> self.deep_view().shown(
                    viewport_rows as int,
                    (#[trigger] items@[i]).0 as int,
                ) && items@[i].1 == self.filtered@[items@[i].0 as int].0,
            forall|i: int, j: int|
                0 <= i < j < items@.len() ==> (#[trigger] items@[i]).0 < (#[trigger] items@[j]).0,
            forall|position: int|
                self.deep_view().shown(viewport_rows as int, position) ==> exists|i: int|
                    0 <= i < items@.len() && (#[trigger] items@[i]).0 == position,
    {
        let ghost view = self.deep_view();
        let ghost rows = viewport_rows as int;
        let count: usize = self.filtered.len();
        let start: usize = if self.scroll_offset < count {
            self.scroll_offset
        } else {
            count
        };
        let height: usize = if viewport_rows > 1 {
            viewport_rows
        } else {
            1
        };
        let end: usize = if height < count - start {
            start + height
        } else {
            count
        };
        assert(view.window_start() == start);
        assert(view.window_end(rows) == end);
        let mut items: Vec<(usize, usize)> = Vec::new();
        let outside: Option<usize> = match self.selected {
            Some(selected) => if selected < count && (selected < start || selected >= end) {
                Some(selected)
            } else {
                None
            },
            None => None,
        };
        match outside {
            Some(selected) => {
                if selected < start {
                    items.push((selected, self.filtered[selected].0));
                }
            },
            None => {},
        }
        let ghost before = items@;
        let mut position: usize = start;
        while position < end
            invariant
                start <= position <= end <= count,
                count == self.filtered@.len(),
                view == self.deep_view(),
                rows == viewport_rows as int,
                view.window_start() == start,
                view.window_end(rows) == end,
                before.len() <= 1,
                before.len() == 1 ==> outside == Some(before[0].0) && before[0].0 < start
                    && before[0].1 == self.filtered@[before[0].0 as int].0,
                outside matches Some(selected) ==> selected < count && self.selected == Some(
                    selected,
                ),
                items@.len() == before.len() + (position - start),
                forall|i: int| 0 <= i < before.len() ==> items@[i] == before[i],
                forall|i: int|
                    before.len() <= i < items@.len() ==> (#[trigger] items@[i]).0 == start + i
                        - before.len() && items@[i].1 == self.filtered@[start + i
                        - before.len()].0,
            decreases end - position,
        {
            items.push((position, self.filtered[position].0));
            position = position + 1;
        }
        let ghost middle = items@;
        match outside {
            Some(selected) => {
                if selected >= end {
                    items.push((selected, self.filtered[selected].0));
                    assert(items@[items@.len() - 1].0 == selected);
                }
            },
            None => {},
        }
        assert(items@ =~= view.visible(rows));
        assert forall|p: int| view.shown(rows, p) implies exists|i: int|
            0 <= i < items@.len() && (#[trigger] items@[i]).0 == p by {
            if start <= p < end {
                assert(middle[p - start + before.len()].0 == p);
                assert(items@[p - start + before.len()].0 == p);
            } else {
                assert(outside == Some(p as usize));
                if p < start {
                    assert(before.len() == 1);
                    assert(items@[0].0 == p);
                } else {
                    assert(items@[items@.len() - 1].0 == p);
                }
            }
        }
        items
    }
}

impl Clone for SearchableList {
    fn clone(&self) -> (list: Self)
        ensures
            list.deep_view() == self.deep_view(),
    {
        SearchableList {
            input: self.input.clone(),
            filtered: copy_rows(&self.filtered),
            selected: self.selected,
            scroll_offset: self.scroll_offset,
        }
    }
}

pub fn copy_rows(rows: &Vec<(usize, i64)>) -> (copy: Vec<(usize, i64)>)
    ensures
        copy@ == rows@,
{
    let mut copy: Vec<(usize, i64)> = Vec::new();
    let mut i: usize = 0;
    while i < rows.len()
        invariant
            i <= rows.len(),
            copy@ == rows@.take(i as int),
        decreases rows.len() - i,
    {
        copy.push(rows[i]);
        i = i + 1;
        assert(rows@.take(i as int) =~= rows@.take(i - 1).push(rows@[i - 1]));
    }
    assert(rows@.take(i as int) =~= rows@);
    copy
}

/// After an edit the cursor stands inside of the text or at its end.
pub proof fn lemma_edits_keep_cursor_inside(input: TextInputV, character: char)
    ensures
        input.inserted(character).cursor <= byte_len(input.inserted(character).text),
        input.without_previous().cursor <= byte_len(input.without_previous().text),
        input.cursor > 0 && input.text.len() > 0 ==> input.without_word().cursor <= byte_len(
            input.without_word().text,
        ),
{
    assert(input.clusters().take(0) =~= Seq::<Seq<char>>::empty());
    let before = input.head(input.index()).push(character);
    lemma_encode_concat(before, input.tail(input.index()));
    let shorter = input.head(input.index() - 1);
    lemma_encode_concat(shorter, input.tail(input.index()));
    let head = input.head(input.index());
    let kept = head.take(last_word_start(trimmed_end(head)));
    lemma_encode_concat(kept, input.tail(input.index()));
}

proof fn lemma_filled_bytes(text: Seq<char>)
    requires
        text.len() > 0,
    ensures
        byte_len(text) > 0,
{
    reveal_with_fuel(vstd::utf8::encode_utf8, 2);
}

/// The clusters before the place behind the first `count` of them are those.
pub proof fn lemma_index_behind(clusters: Seq<Seq<char>>, count: int)
    requires
        filled(clusters),
        0 <= count <= clusters.len(),
    ensures
        clusters_before(clusters, byte_len(flattened(clusters.take(count))) as int) == count,
    decreases count,
{
    if count == 0 {
        assert(clusters.take(0) =~= Seq::<Seq<char>>::empty());
        if clusters.len() > 0 {
            lemma_filled_bytes(clusters[0]);
        }
        assert(byte_len(Seq::<char>::empty()) == 0) by {
            reveal_with_fuel(vstd::utf8::encode_utf8, 1);
        }
    } else {
        let rest = clusters.drop_first();
        assert forall|i: int| 0 <= i < rest.len() implies (#[trigger] rest[i]).len() > 0 by {
            assert(rest[i] == clusters[i + 1]);
        }
        lemma_index_behind(rest, count - 1);
        lemma_flattened_front(clusters, count);
        lemma_encode_concat(clusters[0], flattened(rest.take(count - 1)));
    }
}

proof fn lemma_flattened_front(clusters: Seq<Seq<char>>, count: int)
    requires
        0 < count <= clusters.len(),
    ensures
        flattened(clusters.take(count)) == clusters[0] + flattened(
            clusters.drop_first().take(count - 1),
        ),
    decreases count,
{
    let rest = clusters.drop_first();
    lemma_flattened_step(clusters, count - 1);
    if count == 1 {
        assert(clusters.take(0) =~= Seq::<Seq<char>>::empty());
        assert(rest.take(0) =~= Seq::<Seq<char>>::empty());
        assert(clusters[0] + Seq::<char>::empty() =~= clusters[0]);
        assert(Seq::<char>::empty() + clusters[0] =~= clusters[0]);
    } else {
        lemma_flattened_front(clusters, count - 1);
        lemma_flattened_step(rest, count - 2);
        assert(rest[count - 2] == clusters[count - 1]);
        assert((clusters[0] + flattened(rest.take(count - 2))) + clusters[count - 1]
            =~= clusters[0] + (flattened(rest.take(count - 2)) + clusters[count - 1]));
    }
}

/// A cursor that stands behind some clusters, moves right and then left stands where it stood;
/// so does the cursor one cluster on that moves left and then right.
pub proof fn lemma_moves_undo_each_other(input: TextInputV, count: int)
    requires
        input.clusters_filled(),
        0 <= count < input.clusters().len(),
    ensures
        input.at(count).moved_right() == input.at(count + 1),
        input.at(count).moved_right().moved_left() == input.at(count),
        input.at(count + 1).moved_left().moved_right() == input.at(count + 1),
{
    lemma_index_behind(input.clusters(), count);
    lemma_index_behind(input.clusters(), count + 1);
}

} // verus!
