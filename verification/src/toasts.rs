//! The notifications that wait to be read.

use crate::text::{chars_of, concat3, decimal, decimal_text, join, joined, same_text, text_of, white_space, is_white_space};
use vstd::prelude::*;
use vstd::string::*;

verus! {

#[derive(Debug, Clone, Copy, PartialEq, Eq, Structural)]
pub enum ToastKind {
    Warning,
    Error,
}

/// What a notification is about.
#[derive(Debug, Clone, Copy, PartialEq, Eq, Structural)]
pub enum ToastCategory {
    General,
    Scan,
}

#[derive(Debug, PartialEq, Eq)]
pub struct Toast {
    pub kind: ToastKind,
    pub message: String,
    pub category: ToastCategory,
}

pub struct ToastV {
    pub kind: ToastKind,
    pub message: Seq<char>,
    pub category: ToastCategory,
}

impl DeepView for Toast {
    type V = ToastV;

    open spec fn deep_view(&self) -> ToastV {
        ToastV { kind: self.kind, message: self.message@, category: self.category }
    }
}

pub const MAX_RETAINED_TOASTS: usize = 8;

/// The words of a text, the last one kept apart while it grows.
pub open spec fn words_and_rest(text: Seq<char>) -> (Seq<Seq<char>>, Seq<char>)
    decreases text.len(),
{
    if text.len() == 0 {
        (Seq::empty(), Seq::empty())
    } else {
        let (words, rest) = words_and_rest(text.drop_last());
        if white_space(text.last()) {
            if rest.len() > 0 {
                (words.push(rest), Seq::empty())
            } else {
                (words, rest)
            }
        } else {
            (words, rest.push(text.last()))
        }
    }
}

/// The words of a text: what stands between its white space.
pub open spec fn words(text: Seq<char>) -> Seq<Seq<char>> {
    let (done, rest) = words_and_rest(text);
    if rest.len() > 0 {
        done.push(rest)
    } else {
        done
    }
}

/// A text with single blanks between its words.
pub open spec fn collapsed(text: Seq<char>) -> Seq<char> {
    joined(words(text), " "@)
}

#[verifier::loop_isolation(false)]
fn collapse(text: &str) -> (collapsed_text: String)
    ensures
        collapsed_text@ == collapsed(text@),
{
    let chars = chars_of(text);
    let mut found: Vec<String> = Vec::new();
    let mut rest: Vec<char> = Vec::new();
    let mut i: usize = 0;
    assert(found.deep_view() =~= words_and_rest(chars@.take(0)).0);
    assert(rest@ =~= words_and_rest(chars@.take(0)).1);
    while i < chars.len()
        invariant
            i <= chars.len(),
            (found.deep_view(), rest@) == words_and_rest(chars@.take(i as int)),
        decreases chars.len() - i,
    {
        let ghost before = found.deep_view();
        proof {
            assert(chars@.take(i + 1).drop_last() =~= chars@.take(i as int));
            assert(chars@.take(i + 1).last() == chars@[i as int]);
        }
        if is_white_space(chars[i]) {
            if rest.len() > 0 {
                let word = text_of(&rest);
                let ghost added = word@;
                found.push(word);
                assert(found.deep_view() =~= before.push(added));
                rest = Vec::new();
                assert(rest@ =~= Seq::<char>::empty());
            }
        } else {
            rest.push(chars[i]);
        }
        i = i + 1;
    }
    assert(chars@.take(chars@.len() as int) =~= chars@);
    if rest.len() > 0 {
        let ghost before = found.deep_view();
        let word = text_of(&rest);
        let ghost added = word@;
        found.push(word);
        assert(found.deep_view() =~= before.push(added));
    }
    join(&found, " ")
}

pub open spec fn has_message(toasts: Seq<ToastV>, message: Seq<char>) -> bool {
    exists|i: int| 0 <= i < toasts.len() && (#[trigger] toasts[i]).message == message
}

/// Where the first warning stands.
pub open spec fn first_warning(toasts: Seq<ToastV>) -> Option<int>
    decreases toasts.len(),
{
    if toasts.len() == 0 {
        None
    } else {
        match first_warning(toasts.drop_last()) {
            Some(index) => Some(index),
            None => if toasts.last().kind == ToastKind::Warning {
                Some(toasts.len() - 1)
            } else {
                None
            },
        }
    }
}

/// The notifications after one more: a message that is blank or waits already adds nothing.
/// A full queue makes room by its first warning, and for an error, where it holds errors
/// alone, by its first error; a warning does not push an error out.
pub open spec fn with_toast(
    toasts: Seq<ToastV>,
    kind: ToastKind,
    message: Seq<char>,
    category: ToastCategory,
) -> Seq<ToastV> {
    let text = collapsed(message);
    let toast = ToastV { kind, message: text, category };
    if text.len() == 0 || has_message(toasts, text) {
        toasts
    } else if toasts.len() == MAX_RETAINED_TOASTS {
        match first_warning(toasts) {
            Some(index) => toasts.remove(index).push(toast),
            None => if kind == ToastKind::Error {
                toasts.remove(0).push(toast)
            } else {
                toasts
            },
        }
    } else {
        toasts.push(toast)
    }
}

pub open spec fn scan_message(count: nat) -> Seq<char> {
    decimal(count) + " director"@ + (if count == 1 {
        "y"@
    } else {
        "ies"@
    }) + " could not be scanned"@
}

/// Where the notification about scanning stands.
pub open spec fn first_scan(toasts: Seq<ToastV>) -> Option<int>
    decreases toasts.len(),
{
    if toasts.len() == 0 {
        None
    } else {
        match first_scan(toasts.drop_last()) {
            Some(index) => Some(index),
            None => if toasts.last().category == ToastCategory::Scan {
                Some(toasts.len() - 1)
            } else {
                None
            },
        }
    }
}

/// The notifications after the `count`th directory that could not be scanned: one of them
/// tells of all.
pub open spec fn with_scan_warning(toasts: Seq<ToastV>, count: nat) -> Seq<ToastV> {
    match first_scan(toasts) {
        Some(index) => toasts.update(
            index,
            ToastV { message: scan_message(count), ..toasts[index] },
        ),
        None => with_toast(toasts, ToastKind::Warning, scan_message(count), ToastCategory::Scan),
    }
}

/// No message waits twice, and not too many wait.
pub open spec fn toasts_wf(toasts: Seq<ToastV>) -> bool {
    &&& toasts.len() <= MAX_RETAINED_TOASTS
    &&& forall|i: int, j: int|
        0 <= i < j < toasts.len() ==> (#[trigger] toasts[i]).message != (
        #[trigger] toasts[j]).message
}

proof fn lemma_first_warning(toasts: Seq<ToastV>)
    ensures
        match first_warning(toasts) {
            Some(index) => 0 <= index < toasts.len() && toasts[index].kind == ToastKind::Warning
                && forall|i: int|
                0 <= i < index ==> (#[trigger] toasts[i]).kind != ToastKind::Warning,
            None => forall|i: int|
                0 <= i < toasts.len() ==> (#[trigger] toasts[i]).kind != ToastKind::Warning,
        },
    decreases toasts.len(),
{
    if toasts.len() > 0 {
        let before = toasts.drop_last();
        lemma_first_warning(before);
        match first_warning(toasts) {
            Some(index) => {
                assert forall|i: int| 0 <= i < index implies (#[trigger] toasts[i]).kind
                    != ToastKind::Warning by {
                    assert(toasts[i] == before[i]);
                }
            },
            None => {
                assert forall|i: int| 0 <= i < toasts.len() implies (#[trigger] toasts[i]).kind
                    != ToastKind::Warning by {
                    if i < before.len() {
                        assert(toasts[i] == before[i]);
                    }
                }
            },
        }
    }
}

/// The queue stays bounded and free of repeats, whatever is pushed.
pub proof fn lemma_with_toast_wf(
    toasts: Seq<ToastV>,
    kind: ToastKind,
    message: Seq<char>,
    category: ToastCategory,
)
    requires
        toasts_wf(toasts),
    ensures
        toasts_wf(with_toast(toasts, kind, message, category)),
{
    lemma_first_warning(toasts);
    let text = collapsed(message);
    let toast = ToastV { kind, message: text, category };
    if !(text.len() == 0 || has_message(toasts, text)) {
        assert forall|i: int| 0 <= i < toasts.len() implies (#[trigger] toasts[i]).message
            != text by {}
    }
}

/// A warning never pushes an error out of the queue.
pub proof fn lemma_warnings_keep_errors(toasts: Seq<ToastV>, message: Seq<char>, at: int)
    requires
        0 <= at < toasts.len(),
        toasts[at].kind == ToastKind::Error,
    ensures
        with_toast(toasts, ToastKind::Warning, message, ToastCategory::General).contains(
            toasts[at],
        ),
{
    lemma_first_warning(toasts);
    let out = with_toast(toasts, ToastKind::Warning, message, ToastCategory::General);
    if out == toasts {
        assert(out[at] == toasts[at]);
    } else if toasts.len() == MAX_RETAINED_TOASTS && first_warning(toasts) is Some {
        let gone = first_warning(toasts)->0;
        if at < gone {
            assert(out[at] == toasts[at]);
        } else {
            assert(out[at - 1] == toasts[at]);
        }
    } else {
        assert(out[at] == toasts[at]);
    }
}

fn waits(toasts: &Vec<Toast>, message: &str) -> (answer: bool)
    ensures
        answer == has_message(toasts.deep_view(), message@),
{
    let mut i: usize = 0;
    while i < toasts.len()
        invariant
            i <= toasts.len(),
            forall|k: int| 0 <= k < i ==> (#[trigger] toasts.deep_view()[k]).message != message@,
        decreases toasts.len() - i,
    {
        if same_text(toasts[i].message.as_str(), message) {
            assert(toasts.deep_view()[i as int].message == message@);
            return true;
        }
        i = i + 1;
    }
    false
}

fn find_warning(toasts: &Vec<Toast>) -> (index: Option<usize>)
    ensures
        match first_warning(toasts.deep_view()) {
            Some(at) => index is Some && index->0 as int == at,
            None => index is None,
        },
{
    let ghost all = toasts.deep_view();
    let mut i: usize = 0;
    while i < toasts.len()
        invariant
            i <= toasts.len(),
            all == toasts.deep_view(),
            first_warning(all.take(i as int)) is None,
        decreases toasts.len() - i,
    {
        proof {
            assert(all.take(i + 1).drop_last() =~= all.take(i as int));
            assert(all.take(i + 1).last() == toasts@[i as int].deep_view());
        }
        if toasts[i].kind == ToastKind::Warning {
            proof {
                lemma_first_warning_prefix(all, i + 1);
            }
            return Some(i);
        }
        i = i + 1;
    }
    assert(all.take(all.len() as int) =~= all);
    None
}

proof fn lemma_first_warning_prefix(toasts: Seq<ToastV>, count: int)
    requires
        0 <= count <= toasts.len(),
    ensures
        first_warning(toasts.take(count)) is Some ==> first_warning(toasts) == first_warning(
            toasts.take(count),
        ),
    decreases toasts.len(),
{
    if count == toasts.len() {
        assert(toasts.take(count) =~= toasts);
    } else {
        lemma_first_warning_prefix(toasts.drop_last(), count);
        assert(toasts.drop_last().take(count) =~= toasts.take(count));
    }
}

proof fn lemma_first_scan_prefix(toasts: Seq<ToastV>, count: int)
    requires
        0 <= count <= toasts.len(),
    ensures
        first_scan(toasts.take(count)) is Some ==> first_scan(toasts) == first_scan(
            toasts.take(count),
        ),
    decreases toasts.len(),
{
    if count == toasts.len() {
        assert(toasts.take(count) =~= toasts);
    } else {
        lemma_first_scan_prefix(toasts.drop_last(), count);
        assert(toasts.drop_last().take(count) =~= toasts.take(count));
    }
}

fn find_scan(toasts: &Vec<Toast>) -> (index: Option<usize>)
    ensures
        match first_scan(toasts.deep_view()) {
            Some(at) => index is Some && index->0 as int == at && at < toasts@.len(),
            None => index is None,
        },
{
    let ghost all = toasts.deep_view();
    let mut i: usize = 0;
    while i < toasts.len()
        invariant
            i <= toasts.len(),
            all == toasts.deep_view(),
            first_scan(all.take(i as int)) is None,
        decreases toasts.len() - i,
    {
        proof {
            assert(all.take(i + 1).drop_last() =~= all.take(i as int));
            assert(all.take(i + 1).last() == toasts@[i as int].deep_view());
        }
        if toasts[i].category == ToastCategory::Scan {
            proof {
                lemma_first_scan_prefix(all, i + 1);
            }
            return Some(i);
        }
        i = i + 1;
    }
    assert(all.take(all.len() as int) =~= all);
    None
}

/// Adds a notification.
pub fn push_toast_with_category(
    toasts: &mut Vec<Toast>,
    kind: ToastKind,
    message: &str,
    category: ToastCategory,
)
    ensures
        final(toasts).deep_view() == with_toast(
            old(toasts).deep_view(),
            kind,
            message@,
            category,
        ),
        toasts_wf(old(toasts).deep_view()) ==> toasts_wf(final(toasts).deep_view()),
{
    let ghost start = toasts.deep_view();
    proof {
        lemma_first_warning(start);
        if toasts_wf(start) {
            lemma_with_toast_wf(start, kind, message@, category);
        }
    }
    let text = collapse(message);
    if text.as_str().is_empty() || waits(toasts, text.as_str()) {
        return;
    }
    if toasts.len() == MAX_RETAINED_TOASTS {
        let gone: usize = match find_warning(toasts) {
            Some(index) => index,
            None => {
                if kind == ToastKind::Warning {
                    return;
                }
                0
            },
        };
        let _ = toasts.remove(gone);
        assert(toasts.deep_view() =~= start.remove(gone as int));
    }
    let ghost before = toasts.deep_view();
    let toast = Toast { kind, message: text, category };
    let ghost added = toast.deep_view();
    toasts.push(toast);
    assert(toasts.deep_view() =~= before.push(added));
}

/// Takes in that one more directory, the `count`th, could not be scanned.
pub fn push_scan_warning(toasts: &mut Vec<Toast>, count: u64)
    ensures
        final(toasts).deep_view() == with_scan_warning(old(toasts).deep_view(), count as nat),
{
    let ghost start = toasts.deep_view();
    let number = decimal_text(count);
    let ending = if count == 1 {
        "y"
    } else {
        "ies"
    };
    let mut message = concat3(number.as_str(), " director", ending);
    message.push_str(" could not be scanned");
    match find_scan(toasts) {
        Some(index) => {
            let toast = Toast {
                kind: toasts[index].kind,
                message,
                category: toasts[index].category,
            };
            let ghost changed = toast.deep_view();
            toasts.set(index, toast);
            assert(toasts.deep_view() =~= start.update(index as int, changed));
        },
        None => push_toast_with_category(
            toasts,
            ToastKind::Warning,
            message.as_str(),
            ToastCategory::Scan,
        ),
    }
}

/// Removes the first notification.
pub fn dismiss(toasts: &mut Vec<Toast>)
    ensures
        final(toasts).deep_view() == if old(toasts).deep_view().len() == 0 {
            old(toasts).deep_view()
        } else {
            old(toasts).deep_view().drop_first()
        },
{
    let ghost start = toasts.deep_view();
    if toasts.len() > 0 {
        let _ = toasts.remove(0);
        assert(toasts.deep_view() =~= start.drop_first());
    }
}

/// Not more than one notification tells of directories that could not be scanned.
pub open spec fn scan_told_once(toasts: Seq<ToastV>) -> bool {
    forall|i: int, j: int|
        0 <= i < j < toasts.len() ==> (#[trigger] toasts[i]).category != ToastCategory::Scan || (
        #[trigger] toasts[j]).category != ToastCategory::Scan
}

proof fn lemma_no_scan(toasts: Seq<ToastV>)
    ensures
        first_scan(toasts) is None ==> forall|i: int|
            0 <= i < toasts.len() ==> (#[trigger] toasts[i]).category != ToastCategory::Scan,
        first_scan(toasts) matches Some(index) ==> 0 <= index < toasts.len(),
    decreases toasts.len(),
{
    if toasts.len() > 0 {
        let before = toasts.drop_last();
        lemma_no_scan(before);
        if first_scan(toasts) is None {
            assert forall|i: int| 0 <= i < toasts.len() implies (#[trigger] toasts[i]).category
                != ToastCategory::Scan by {
                if i < before.len() {
                    assert(before[i] == toasts[i]);
                }
            }
        }
    }
}

proof fn lemma_toast_told_once(
    toasts: Seq<ToastV>,
    kind: ToastKind,
    message: Seq<char>,
    category: ToastCategory,
)
    requires
        scan_told_once(toasts),
        category == ToastCategory::Scan ==> first_scan(toasts) is None,
    ensures
        scan_told_once(with_toast(toasts, kind, message, category)),
{
    lemma_no_scan(toasts);
    lemma_first_warning(toasts);
    let out = with_toast(toasts, kind, message, category);
    if out != toasts && toasts.len() == MAX_RETAINED_TOASTS {
        let gone = match first_warning(toasts) {
            Some(index) => index,
            None => 0,
        };
        let kept = toasts.remove(gone);
        assert forall|i: int, j: int| 0 <= i < j < out.len() implies (#[trigger] out[i]).category
            != ToastCategory::Scan || (#[trigger] out[j]).category != ToastCategory::Scan by {
            let a = if i < gone {
                i
            } else {
                i + 1
            };
            assert(out[i] == kept[i] && kept[i] == toasts[a]);
            if j < kept.len() {
                let b = if j < gone {
                    j
                } else {
                    j + 1
                };
                assert(out[j] == kept[j] && kept[j] == toasts[b]);
            }
        }
    }
}

/// However many directories cannot be scanned and whatever else is told, one notification
/// at most tells of scanning.
pub proof fn lemma_scan_warnings_share_a_notification(
    toasts: Seq<ToastV>,
    count: nat,
    kind: ToastKind,
    message: Seq<char>,
)
    requires
        scan_told_once(toasts),
    ensures
        scan_told_once(with_scan_warning(toasts, count)),
        scan_told_once(with_toast(toasts, kind, message, ToastCategory::General)),
{
    lemma_toast_told_once(toasts, kind, message, ToastCategory::General);
    lemma_no_scan(toasts);
    match first_scan(toasts) {
        Some(index) => {
            let out = with_scan_warning(toasts, count);
            assert forall|i: int, j: int| 0 <= i < j < out.len() implies (#[trigger] out[i]).category
                != ToastCategory::Scan || (#[trigger] out[j]).category != ToastCategory::Scan by {
                assert(out[i].category == toasts[i].category);
                assert(out[j].category == toasts[j].category);
            }
        },
        None => {
            lemma_toast_told_once(
                toasts,
                ToastKind::Warning,
                scan_message(count),
                ToastCategory::Scan,
            );
        },
    }
}

} // verus!
