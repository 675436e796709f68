//! Texts that hold other texts.

use crate::text::joined;
use vstd::prelude::*;

verus! {

/// Whether a text holds another one somewhere.
pub open spec fn holds(text: Seq<char>, part: Seq<char>) -> bool {
    exists|start: int|
        0 <= start && start + part.len() <= text.len() && #[trigger] text.subrange(
            start,
            start + part.len(),
        ) == part
}

/// A text holds what stands between its start and its end.
pub proof fn lemma_holds_middle(before: Seq<char>, part: Seq<char>, after: Seq<char>)
    ensures
        holds(before + part + after, part),
{
    let text = before + part + after;
    let start = before.len() as int;
    assert(text.subrange(start, start + part.len()) =~= part);
}

/// A text holds whatever a part of it holds.
pub proof fn lemma_holds_wider(
    before: Seq<char>,
    text: Seq<char>,
    after: Seq<char>,
    part: Seq<char>,
)
    requires
        holds(text, part),
    ensures
        holds(before + text + after, part),
{
    let start = choose|start: int|
        0 <= start && start + part.len() <= text.len() && #[trigger] text.subrange(
            start,
            start + part.len(),
        ) == part;
    let at = before.len() + start;
    assert((before + text + after).subrange(at, at + part.len()) =~= text.subrange(
        start,
        start + part.len(),
    ));
}

/// Texts in a row hold each of them.
pub proof fn lemma_joined_holds_all(texts: Seq<Seq<char>>, separator: Seq<char>)
    ensures
        forall|i: int|
            0 <= i < texts.len() ==> holds(joined(texts, separator), #[trigger] texts[i]),
    decreases texts.len(),
{
    let all = joined(texts, separator);
    let none = Seq::<char>::empty();
    if texts.len() == 1 {
        lemma_holds_middle(none, texts[0], none);
        assert(none + texts[0] + none =~= texts[0]);
    } else if texts.len() > 1 {
        let before = texts.drop_last();
        lemma_joined_holds_all(before, separator);
        assert forall|i: int| 0 <= i < texts.len() implies holds(all, #[trigger] texts[i]) by {
            if i < before.len() {
                assert(before[i] == texts[i]);
                lemma_holds_wider(
                    none,
                    joined(before, separator),
                    separator + texts.last(),
                    texts[i],
                );
                assert(none + joined(before, separator) + (separator + texts.last()) =~= all);
            } else {
                lemma_holds_middle(joined(before, separator) + separator, texts[i], none);
                assert(joined(before, separator) + separator + texts[i] + none =~= all);
            }
        }
    }
}

} // verus!
