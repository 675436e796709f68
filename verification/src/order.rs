//! Byte-wise lexicographic order and a stable sort.

use vstd::prelude::*;

verus! {

/// Outcome of a three-way comparison.
#[derive(Debug, Clone, Copy, PartialEq, Eq, Structural)]
pub enum Rank {
    Less,
    Equal,
    Greater,
}

impl Rank {
    /// The second comparison decides where the first one ties.
    pub open spec fn or_else_spec(self, next: Rank) -> Rank {
        if self == Rank::Equal {
            next
        } else {
            self
        }
    }

    pub fn or_else(self, next: Rank) -> (result: Rank)
        ensures
            result == self.or_else_spec(next),
    {
        match self {
            Rank::Equal => next,
            other => other,
        }
    }
}

/// Natural order of two integers.
pub open spec fn rank_int(left: int, right: int) -> Rank {
    if left < right {
        Rank::Less
    } else if left == right {
        Rank::Equal
    } else {
        Rank::Greater
    }
}

pub fn rank_u64(left: u64, right: u64) -> (result: Rank)
    ensures
        result == rank_int(left as int, right as int),
{
    if left < right {
        Rank::Less
    } else if left == right {
        Rank::Equal
    } else {
        Rank::Greater
    }
}

/// Lexicographic order of two byte strings: a proper prefix comes first.
pub open spec fn rank_bytes(left: Seq<u8>, right: Seq<u8>) -> Rank
    decreases left.len(),
{
    if left.len() == 0 {
        if right.len() == 0 {
            Rank::Equal
        } else {
            Rank::Less
        }
    } else if right.len() == 0 {
        Rank::Greater
    } else if left[0] != right[0] {
        rank_int(left[0] as int, right[0] as int)
    } else {
        rank_bytes(left.drop_first(), right.drop_first())
    }
}

proof fn lemma_rank_bytes_suffix(left: Seq<u8>, right: Seq<u8>, at: int)
    requires
        0 <= at <= left.len(),
        at <= right.len(),
        forall|i: int| 0 <= i < at ==> left[i] == right[i],
    ensures
        rank_bytes(left, right) == rank_bytes(left.skip(at), right.skip(at)),
    decreases at,
{
    if at == 0 {
        assert(left.skip(0) =~= left);
        assert(right.skip(0) =~= right);
    } else {
        let l = left.drop_first();
        let r = right.drop_first();
        assert forall|i: int| 0 <= i < at - 1 implies l[i] == r[i] by {
            assert(left[i + 1] == right[i + 1]);
        }
        lemma_rank_bytes_suffix(l, r, at - 1);
        assert(l.skip(at - 1) =~= left.skip(at));
        assert(r.skip(at - 1) =~= right.skip(at));
    }
}

/// Compares two byte strings lexicographically.
pub fn compare_bytes(left: &[u8], right: &[u8]) -> (result: Rank)
    ensures
        result == rank_bytes(left@, right@),
{
    let mut i: usize = 0;
    while i < left.len() && i < right.len()
        invariant
            i <= left.len(),
            i <= right.len(),
            forall|k: int| 0 <= k < i ==> left@[k] == right@[k],
        decreases left.len() - i,
    {
        let l: u8 = left[i];
        let r: u8 = right[i];
        if l != r {
            proof {
                lemma_rank_bytes_suffix(left@, right@, i as int);
            }
            if l < r {
                return Rank::Less;
            }
            return Rank::Greater;
        }
        i = i + 1;
    }
    proof {
        lemma_rank_bytes_suffix(left@, right@, i as int);
    }
    if i < left.len() {
        Rank::Greater
    } else if i < right.len() {
        Rank::Less
    } else {
        Rank::Equal
    }
}

/// The byte order ties exactly on equal byte strings.
pub proof fn lemma_rank_bytes_equal(left: Seq<u8>, right: Seq<u8>)
    ensures
        rank_bytes(left, right) == Rank::Equal <==> left == right,
    decreases left.len(),
{
    if left.len() > 0 && right.len() > 0 {
        lemma_rank_bytes_equal(left.drop_first(), right.drop_first());
        if left[0] == right[0] && left.drop_first() == right.drop_first() {
            assert(left =~= seq![left[0]] + left.drop_first());
            assert(right =~= seq![right[0]] + right.drop_first());
        }
    } else {
        assert(left.len() == 0 && right.len() == 0 ==> left =~= right);
    }
}

/// Swapping the arguments turns the byte order around.
pub proof fn lemma_rank_bytes_flip(left: Seq<u8>, right: Seq<u8>)
    ensures
        rank_bytes(left, right) == Rank::Less <==> rank_bytes(right, left) == Rank::Greater,
        rank_bytes(left, right) == Rank::Equal <==> rank_bytes(right, left) == Rank::Equal,
    decreases left.len(),
{
    if left.len() > 0 && right.len() > 0 {
        lemma_rank_bytes_flip(left.drop_first(), right.drop_first());
    }
}

/// The byte order is transitive.
pub proof fn lemma_rank_bytes_transitive(a: Seq<u8>, b: Seq<u8>, c: Seq<u8>)
    requires
        rank_bytes(a, b) != Rank::Greater,
        rank_bytes(b, c) != Rank::Greater,
    ensures
        rank_bytes(a, c) != Rank::Greater,
        rank_bytes(a, c) == Rank::Equal ==> rank_bytes(a, b) == Rank::Equal && rank_bytes(b, c)
            == Rank::Equal,
    decreases a.len(),
{
    if a.len() > 0 && b.len() > 0 && c.len() > 0 {
        if a[0] == b[0] && b[0] == c[0] {
            lemma_rank_bytes_transitive(a.drop_first(), b.drop_first(), c.drop_first());
        }
    }
}

/// `false` before `true`.
pub open spec fn rank_bool(left: bool, right: bool) -> Rank {
    rank_int(
        if left {
            1
        } else {
            0
        },
        if right {
            1
        } else {
            0
        },
    )
}

pub fn compare_bool(left: bool, right: bool) -> (result: Rank)
    ensures
        result == rank_bool(left, right),
{
    if left == right {
        Rank::Equal
    } else if right {
        Rank::Less
    } else {
        Rank::Greater
    }
}

/// Order of two texts by the bytes that encode them.
pub open spec fn rank_text(left: Seq<char>, right: Seq<char>) -> Rank {
    rank_bytes(vstd::utf8::encode_utf8(left), vstd::utf8::encode_utf8(right))
}

pub fn compare_text(left: &str, right: &str) -> (result: Rank)
    ensures
        result == rank_text(left@, right@),
{
    compare_bytes(left.as_bytes(), right.as_bytes())
}

/// Order of two optional texts: no text before any text.
pub open spec fn rank_optional_text(left: Option<Seq<char>>, right: Option<Seq<char>>) -> Rank {
    match (left, right) {
        (Some(l), Some(r)) => rank_text(l, r),
        _ => rank_bool(left is Some, right is Some),
    }
}

pub fn compare_optional_text(left: &Option<String>, right: &Option<String>) -> (result: Rank)
    ensures
        result == rank_optional_text(left.deep_view(), right.deep_view()),
{
    match (left, right) {
        (Some(l), Some(r)) => compare_text(l.as_str(), r.as_str()),
        _ => compare_bool(left.is_some(), right.is_some()),
    }
}

/// A three-way comparison that describes a total preorder.
pub open spec fn consistent<T>(rank: spec_fn(T, T) -> Rank) -> bool {
    &&& forall|a: T, b: T|
        #![trigger rank(a, b)]
        {
            &&& rank(a, b) == Rank::Less <==> rank(b, a) == Rank::Greater
            &&& rank(a, b) == Rank::Equal <==> rank(b, a) == Rank::Equal
        }
    &&& forall|a: T, b: T, c: T|
        #![trigger rank(a, b), rank(b, c)]
        rank(a, b) != Rank::Greater && rank(b, c) != Rank::Greater ==> {
            &&& rank(a, c) != Rank::Greater
            &&& rank(a, c) == Rank::Equal ==> rank(a, b) == Rank::Equal && rank(b, c)
                == Rank::Equal
        }
}

/// Not ranked behind.
pub open spec fn not_after<T>(rank: spec_fn(T, T) -> Rank) -> spec_fn(T, T) -> bool {
    |a: T, b: T| rank(a, b) != Rank::Greater
}

pub proof fn lemma_consistent_total<T>(rank: spec_fn(T, T) -> Rank)
    requires
        consistent(rank),
    ensures
        total_preorder(not_after(rank)),
{
    let le = not_after(rank);
    assert forall|a: T, b: T| #[trigger] le(a, b) || le(b, a) by {
        assert(rank(a, b) == Rank::Less <==> rank(b, a) == Rank::Greater);
        assert(rank(b, a) == Rank::Less <==> rank(a, b) == Rank::Greater);
    }
    assert forall|a: T, b: T, c: T| #[trigger] le(a, b) && #[trigger] le(b, c) implies le(a, c) by {
        assert(rank(a, b) != Rank::Greater && rank(b, c) != Rank::Greater);
    }
}

/// Ties of one comparison decided by another.
pub open spec fn chained<T>(
    first: spec_fn(T, T) -> Rank,
    second: spec_fn(T, T) -> Rank,
) -> spec_fn(T, T) -> Rank {
    |a: T, b: T| first(a, b).or_else_spec(second(a, b))
}

pub proof fn lemma_chained_consistent<T>(
    first: spec_fn(T, T) -> Rank,
    second: spec_fn(T, T) -> Rank,
)
    requires
        consistent(first),
        consistent(second),
    ensures
        consistent(chained(first, second)),
{
    let both = chained(first, second);
    assert forall|a: T, b: T|
        #![trigger both(a, b)]
        {
            &&& both(a, b) == Rank::Less <==> both(b, a) == Rank::Greater
            &&& both(a, b) == Rank::Equal <==> both(b, a) == Rank::Equal
        } by {
        assert(first(a, b) == Rank::Less <==> first(b, a) == Rank::Greater);
        assert(first(b, a) == Rank::Less <==> first(a, b) == Rank::Greater);
        assert(second(a, b) == Rank::Less <==> second(b, a) == Rank::Greater);
        assert(second(b, a) == Rank::Less <==> second(a, b) == Rank::Greater);
    }
    assert forall|a: T, b: T, c: T|
        #![trigger both(a, b), both(b, c)]
        both(a, b) != Rank::Greater && both(b, c) != Rank::Greater implies {
        &&& both(a, c) != Rank::Greater
        &&& both(a, c) == Rank::Equal ==> both(a, b) == Rank::Equal && both(b, c) == Rank::Equal
    } by {
        assert(first(a, b) != Rank::Greater && first(b, c) != Rank::Greater);
        assert(first(a, c) == Rank::Equal ==> second(a, b) != Rank::Greater && second(b, c)
            != Rank::Greater);
    }
}

/// A comparison of values by a key.
pub open spec fn by_key<T, K>(
    rank: spec_fn(K, K) -> Rank,
    key: spec_fn(T) -> K,
) -> spec_fn(T, T) -> Rank {
    |a: T, b: T| rank(key(a), key(b))
}

pub proof fn lemma_by_key_consistent<T, K>(rank: spec_fn(K, K) -> Rank, key: spec_fn(T) -> K)
    requires
        consistent(rank),
    ensures
        consistent(by_key(rank, key)),
{
    let keyed = by_key(rank, key);
    assert forall|a: T, b: T|
        #![trigger keyed(a, b)]
        {
            &&& keyed(a, b) == Rank::Less <==> keyed(b, a) == Rank::Greater
            &&& keyed(a, b) == Rank::Equal <==> keyed(b, a) == Rank::Equal
        } by {
        assert(rank(key(a), key(b)) == Rank::Less <==> rank(key(b), key(a)) == Rank::Greater);
    }
    assert forall|a: T, b: T, c: T|
        #![trigger keyed(a, b), keyed(b, c)]
        keyed(a, b) != Rank::Greater && keyed(b, c) != Rank::Greater implies {
        &&& keyed(a, c) != Rank::Greater
        &&& keyed(a, c) == Rank::Equal ==> keyed(a, b) == Rank::Equal && keyed(b, c) == Rank::Equal
    } by {
        assert(rank(key(a), key(b)) != Rank::Greater && rank(key(b), key(c)) != Rank::Greater);
    }
}

pub proof fn lemma_rank_int_consistent()
    ensures
        consistent(|a: int, b: int| rank_int(a, b)),
{
}

pub proof fn lemma_rank_bool_consistent()
    ensures
        consistent(|a: bool, b: bool| rank_bool(a, b)),
{
}

pub proof fn lemma_rank_bytes_consistent()
    ensures
        consistent(|a: Seq<u8>, b: Seq<u8>| rank_bytes(a, b)),
{
    let rank = |a: Seq<u8>, b: Seq<u8>| rank_bytes(a, b);
    assert forall|a: Seq<u8>, b: Seq<u8>|
        #![trigger rank(a, b)]
        {
            &&& rank(a, b) == Rank::Less <==> rank(b, a) == Rank::Greater
            &&& rank(a, b) == Rank::Equal <==> rank(b, a) == Rank::Equal
        } by {
        lemma_rank_bytes_flip(a, b);
    }
    assert forall|a: Seq<u8>, b: Seq<u8>, c: Seq<u8>|
        #![trigger rank(a, b), rank(b, c)]
        rank(a, b) != Rank::Greater && rank(b, c) != Rank::Greater implies {
        &&& rank(a, c) != Rank::Greater
        &&& rank(a, c) == Rank::Equal ==> rank(a, b) == Rank::Equal && rank(b, c) == Rank::Equal
    } by {
        lemma_rank_bytes_transitive(a, b, c);
    }
}

pub proof fn lemma_rank_text_consistent()
    ensures
        consistent(|a: Seq<char>, b: Seq<char>| rank_text(a, b)),
{
    lemma_rank_bytes_consistent();
    let rank = |a: Seq<u8>, b: Seq<u8>| rank_bytes(a, b);
    let key = |a: Seq<char>| vstd::utf8::encode_utf8(a);
    lemma_by_key_consistent(rank, key);
    assert(by_key(rank, key) =~= (|a: Seq<char>, b: Seq<char>| rank_text(a, b)));
}

pub proof fn lemma_rank_optional_text_consistent()
    ensures
        consistent(|a: Option<Seq<char>>, b: Option<Seq<char>>| rank_optional_text(a, b)),
{
    let rank = |a: Option<Seq<char>>, b: Option<Seq<char>>| rank_optional_text(a, b);
    let text = |a: Seq<char>, b: Seq<char>| rank_text(a, b);
    lemma_rank_text_consistent();
    assert forall|a: Option<Seq<char>>, b: Option<Seq<char>>|
        #![trigger rank(a, b)]
        {
            &&& rank(a, b) == Rank::Less <==> rank(b, a) == Rank::Greater
            &&& rank(a, b) == Rank::Equal <==> rank(b, a) == Rank::Equal
        } by {
        if a is Some && b is Some {
            assert(text(a->0, b->0) == Rank::Less <==> text(b->0, a->0) == Rank::Greater);
        }
    }
    assert forall|a: Option<Seq<char>>, b: Option<Seq<char>>, c: Option<Seq<char>>|
        #![trigger rank(a, b), rank(b, c)]
        rank(a, b) != Rank::Greater && rank(b, c) != Rank::Greater implies {
        &&& rank(a, c) != Rank::Greater
        &&& rank(a, c) == Rank::Equal ==> rank(a, b) == Rank::Equal && rank(b, c) == Rank::Equal
    } by {
        if a is Some && b is Some && c is Some {
            assert(text(a->0, b->0) != Rank::Greater && text(b->0, c->0) != Rank::Greater);
        }
    }
}

/// `item` placed behind every element that does not have to follow it.
pub open spec fn insert_in_order<T>(sorted: Seq<T>, item: T, le: spec_fn(T, T) -> bool) -> Seq<T>
    decreases sorted.len(),
{
    if sorted.len() == 0 || le(sorted.last(), item) {
        sorted.push(item)
    } else {
        insert_in_order(sorted.drop_last(), item, le).push(sorted.last())
    }
}

/// The stable arrangement of `items` by `le`; [`lemma_stable_sort`] characterises it.
pub open spec fn stable_sorted<T>(items: Seq<T>, le: spec_fn(T, T) -> bool) -> Seq<T>
    decreases items.len(),
{
    if items.len() == 0 {
        items
    } else {
        insert_in_order(stable_sorted(items.drop_last(), le), items.last(), le)
    }
}

pub open spec fn total_preorder<T>(le: spec_fn(T, T) -> bool) -> bool {
    &&& forall|a: T, b: T| #[trigger] le(a, b) || le(b, a)
    &&& forall|a: T, b: T, c: T| #[trigger] le(a, b) && #[trigger] le(b, c) ==> le(a, c)
}

/// No element stands before one that has to precede it.
pub open spec fn in_order<T>(items: Seq<T>, le: spec_fn(T, T) -> bool) -> bool {
    forall|i: int, j: int| 0 <= i < j < items.len() ==> le(#[trigger] items[i], #[trigger] items[j])
}

/// `places` says where each element of `after` stood in `before`; elements that tie keep
/// their relative order.
pub open spec fn stable_rearrangement<T>(
    before: Seq<T>,
    after: Seq<T>,
    le: spec_fn(T, T) -> bool,
    places: Seq<int>,
) -> bool {
    &&& places.len() == before.len()
    &&& after.len() == before.len()
    &&& forall|i: int|
        0 <= i < after.len() ==> 0 <= #[trigger] places[i] < before.len() && after[i]
            == before[places[i]]
    &&& forall|i: int, j: int|
        0 <= i < j < after.len() ==> #[trigger] places[i] != #[trigger] places[j]
    &&& forall|i: int, j: int|
        0 <= i < j < after.len() && le(after[j], after[i]) ==> #[trigger] places[i]
            < #[trigger] places[j]
}

proof fn lemma_insert_in_order<T>(
    before: Seq<T>,
    sorted: Seq<T>,
    item: T,
    le: spec_fn(T, T) -> bool,
    places: Seq<int>,
) -> (result: Seq<int>)
    requires
        total_preorder(le),
        in_order(sorted, le),
        places.len() == sorted.len(),
        sorted.len() <= before.len(),
        forall|i: int|
            0 <= i < sorted.len() ==> 0 <= #[trigger] places[i] < before.len() && sorted[i]
                == before[places[i]],
        forall|i: int, j: int|
            0 <= i < j < sorted.len() ==> #[trigger] places[i] != #[trigger] places[j],
        forall|i: int, j: int|
            0 <= i < j < sorted.len() && le(sorted[j], sorted[i]) ==> #[trigger] places[i]
                < #[trigger] places[j],
    ensures
        ({
            let out = insert_in_order(sorted, item, le);
            let all = before.push(item);
            &&& out.len() == sorted.len() + 1
            &&& in_order(out, le)
            &&& result.len() == out.len()
            &&& forall|i: int|
                0 <= i < out.len() ==> 0 <= #[trigger] result[i] <= before.len() && out[i]
                    == all[result[i]]
            &&& forall|i: int, j: int|
                0 <= i < j < out.len() ==> #[trigger] result[i] != #[trigger] result[j]
            &&& forall|i: int, j: int|
                0 <= i < j < out.len() && le(out[j], out[i]) ==> #[trigger] result[i]
                    < #[trigger] result[j]
            &&& forall|i: int|
                0 <= i < out.len() ==> (#[trigger] result[i] == before.len() || exists|k: int|
                    0 <= k < places.len() && places[k] == result[i])
            &&& forall|i: int|
                0 <= i < out.len() ==> (#[trigger] out[i] == item || exists|k: int|
                    0 <= k < sorted.len() && sorted[k] == out[i])
        }),
    decreases sorted.len(),
{
    let out = insert_in_order(sorted, item, le);
    let n = before.len() as int;
    if sorted.len() == 0 || le(sorted.last(), item) {
        let result = places.push(n);
        assert forall|i: int, j: int| 0 <= i < j < out.len() implies le(
            #[trigger] out[i],
            #[trigger] out[j],
        ) by {
            if j == sorted.len() {
                if i < sorted.len() - 1 {
                    assert(le(sorted[i], sorted[sorted.len() - 1]));
                }
            }
        }
        assert forall|i: int| 0 <= i < out.len() implies (#[trigger] result[i] == before.len()
            || exists|k: int| 0 <= k < places.len() && places[k] == result[i]) by {
            if i < places.len() {
                assert(places[i] == result[i]);
            }
        }
        assert forall|i: int| 0 <= i < out.len() implies (#[trigger] out[i] == item || exists|
            k: int,
        |
            0 <= k < sorted.len() && sorted[k] == out[i]) by {
            if i < sorted.len() {
                assert(sorted[i] == out[i]);
            }
        }
        result
    } else {
        let shorter = sorted.drop_last();
        let inner = lemma_insert_in_order(before, shorter, item, le, places.drop_last());
        let inner_out = insert_in_order(shorter, item, le);
        let last = sorted.last();
        let result = inner.push(places.last());
        assert(le(item, last));
        assert forall|i: int| 0 <= i < inner_out.len() implies le(#[trigger] inner_out[i], last) by {
            if inner_out[i] != item {
                let k = choose|k: int| 0 <= k < shorter.len() && shorter[k] == inner_out[i];
                assert(le(sorted[k], sorted[sorted.len() - 1]));
            }
        }
        assert forall|i: int, j: int| 0 <= i < j < out.len() implies le(
            #[trigger] out[i],
            #[trigger] out[j],
        ) by {
            if j < inner_out.len() {
                assert(le(inner_out[i], inner_out[j]));
            } else {
                assert(le(inner_out[i], last));
            }
        }
        assert forall|i: int| 0 <= i < out.len() implies 0 <= #[trigger] result[i] <= before.len()
            && out[i] == before.push(item)[result[i]] by {
            if i < inner.len() {
                assert(inner[i] == result[i]);
                assert(inner_out[i] == out[i]);
            } else {
                assert(places[places.len() - 1] == result[i]);
            }
        }
        assert forall|i: int, j: int| 0 <= i < j < out.len() implies #[trigger] result[i]
            != #[trigger] result[j] by {
            if j < inner.len() {
                assert(inner[i] != inner[j]);
            } else {
                assert(inner[i] == result[i]);
                if inner[i] != n {
                    let k = choose|k: int|
                        0 <= k < places.drop_last().len() && places.drop_last()[k] == inner[i];
                    assert(places[k] != places[places.len() - 1]);
                } else {
                    assert(places[places.len() - 1] < n);
                }
            }
        }
        assert forall|i: int, j: int|
            0 <= i < j < out.len() && le(out[j], out[i]) implies #[trigger] result[i]
            < #[trigger] result[j] by {
            if j < inner.len() {
                assert(inner[i] < inner[j]);
            } else {
                assert(inner_out[i] == out[i] && inner[i] == result[i]);
                if inner[i] == n {
                    assert(inner_out[i] == before.push(item)[inner[i]]);
                    assert(le(last, item));
                } else {
                    let k = choose|k: int|
                        0 <= k < places.drop_last().len() && places.drop_last()[k] == inner[i];
                    assert(sorted[k] == before[places[k]]);
                    assert(inner_out[i] == before.push(item)[inner[i]]);
                    assert(sorted[k] == out[i]);
                    assert(places[k] < places[places.len() - 1]);
                }
            }
        }
        assert forall|i: int| 0 <= i < out.len() implies (#[trigger] result[i] == before.len()
            || exists|k: int| 0 <= k < places.len() && places[k] == result[i]) by {
            if i < inner.len() {
                assert(inner[i] == result[i]);
                if inner[i] != n {
                    let k = choose|k: int|
                        0 <= k < places.drop_last().len() && places.drop_last()[k] == inner[i];
                    assert(places[k] == result[i]);
                }
            } else {
                assert(places[places.len() - 1] == result[i]);
            }
        }
        assert forall|i: int| 0 <= i < out.len() implies (#[trigger] out[i] == item || exists|
            k: int,
        |
            0 <= k < sorted.len() && sorted[k] == out[i]) by {
            if i < inner_out.len() {
                assert(inner_out[i] == out[i]);
                if inner_out[i] != item {
                    let k = choose|k: int| 0 <= k < shorter.len() && shorter[k] == inner_out[i];
                    assert(sorted[k] == out[i]);
                }
            } else {
                assert(sorted[sorted.len() - 1] == out[i]);
            }
        }
        result
    }
}

/// Sorting arranges the same elements in order and keeps ties in their relative order.
pub proof fn lemma_stable_sort<T>(items: Seq<T>, le: spec_fn(T, T) -> bool) -> (places: Seq<int>)
    requires
        total_preorder(le),
    ensures
        in_order(stable_sorted(items, le), le),
        stable_rearrangement(items, stable_sorted(items, le), le, places),
    decreases items.len(),
{
    if items.len() == 0 {
        Seq::empty()
    } else {
        let shorter = items.drop_last();
        let inner = lemma_stable_sort(shorter, le);
        assert(shorter.push(items.last()) =~= items);
        lemma_insert_in_order(shorter, stable_sorted(shorter, le), items.last(), le, inner)
    }
}

proof fn lemma_insert_len<T>(sorted: Seq<T>, item: T, le: spec_fn(T, T) -> bool)
    ensures
        insert_in_order(sorted, item, le).len() == sorted.len() + 1,
    decreases sorted.len(),
{
    if !(sorted.len() == 0 || le(sorted.last(), item)) {
        lemma_insert_len(sorted.drop_last(), item, le);
    }
}

/// Sorting keeps the number of elements.
pub proof fn lemma_stable_sorted_len<T>(items: Seq<T>, le: spec_fn(T, T) -> bool)
    ensures
        stable_sorted(items, le).len() == items.len(),
    decreases items.len(),
{
    if items.len() > 0 {
        lemma_stable_sorted_len(items.drop_last(), le);
        lemma_insert_len(stable_sorted(items.drop_last(), le), items.last(), le);
    }
}

proof fn lemma_insert_map<T, U>(
    sorted: Seq<T>,
    item: T,
    le: spec_fn(T, T) -> bool,
    image: spec_fn(T) -> U,
    image_le: spec_fn(U, U) -> bool,
)
    requires
        forall|a: T, b: T| #[trigger] le(a, b) == image_le(image(a), image(b)),
    ensures
        insert_in_order(sorted, item, le).map_values(image) =~= insert_in_order(
            sorted.map_values(image),
            image(item),
            image_le,
        ),
    decreases sorted.len(),
{
    let mapped = sorted.map_values(image);
    if sorted.len() == 0 || le(sorted.last(), item) {
        if sorted.len() > 0 {
            assert(mapped.last() == image(sorted.last()));
        }
    } else {
        assert(mapped.last() == image(sorted.last()));
        assert(mapped.drop_last() =~= sorted.drop_last().map_values(image));
        lemma_insert_map(sorted.drop_last(), item, le, image, image_le);
    }
}

/// Sorting commutes with a map that carries one order to the other.
pub proof fn lemma_sort_map<T, U>(
    items: Seq<T>,
    le: spec_fn(T, T) -> bool,
    image: spec_fn(T) -> U,
    image_le: spec_fn(U, U) -> bool,
)
    requires
        forall|a: T, b: T| #[trigger] le(a, b) == image_le(image(a), image(b)),
    ensures
        stable_sorted(items, le).map_values(image) =~= stable_sorted(
            items.map_values(image),
            image_le,
        ),
    decreases items.len(),
{
    let mapped = items.map_values(image);
    if items.len() > 0 {
        assert(mapped.last() == image(items.last()));
        assert(mapped.drop_last() =~= items.drop_last().map_values(image));
        lemma_sort_map(items.drop_last(), le, image, image_le);
        lemma_insert_map(stable_sorted(items.drop_last(), le), items.last(), le, image, image_le);
    }
}

proof fn lemma_insert_at<T>(sorted: Seq<T>, item: T, le: spec_fn(T, T) -> bool, at: int)
    requires
        0 <= at <= sorted.len(),
        at == 0 || le(sorted[at - 1], item),
        forall|i: int| at <= i < sorted.len() ==> !le(#[trigger] sorted[i], item),
    ensures
        insert_in_order(sorted, item, le) == sorted.insert(at, item),
    decreases sorted.len(),
{
    if at == sorted.len() {
        assert(sorted.insert(at, item) =~= sorted.push(item));
    } else {
        assert(!le(sorted[sorted.len() - 1], item));
        let shorter = sorted.drop_last();
        lemma_insert_at(shorter, item, le, at);
        assert(sorted.insert(at, item) =~= shorter.insert(at, item).push(sorted.last()));
    }
}

proof fn lemma_insert_contains<T>(sorted: Seq<T>, item: T, le: spec_fn(T, T) -> bool, other: T)
    requires
        other == item || sorted.contains(other),
    ensures
        insert_in_order(sorted, item, le).contains(other),
    decreases sorted.len(),
{
    let out = insert_in_order(sorted, item, le);
    if sorted.len() == 0 || le(sorted.last(), item) {
        if other == item {
            assert(out[sorted.len() as int] == item);
        } else {
            let at = choose|i: int| 0 <= i < sorted.len() && sorted[i] == other;
            assert(out[at] == other);
        }
    } else {
        let shorter = insert_in_order(sorted.drop_last(), item, le);
        if other == sorted.last() && other != item {
            assert(out[shorter.len() as int] == other);
        } else {
            if other != item {
                let at = choose|i: int| 0 <= i < sorted.len() && sorted[i] == other;
                assert(sorted.drop_last()[at] == other);
            }
            lemma_insert_contains(sorted.drop_last(), item, le, other);
            let at = choose|i: int| 0 <= i < shorter.len() && shorter[i] == other;
            assert(out[at] == other);
        }
    }
}

/// Sorting loses nothing.
pub proof fn lemma_sorted_contains<T>(items: Seq<T>, le: spec_fn(T, T) -> bool, at: int)
    requires
        0 <= at < items.len(),
    ensures
        stable_sorted(items, le).contains(items[at]),
    decreases items.len(),
{
    if at < items.len() - 1 {
        lemma_sorted_contains(items.drop_last(), le, at);
    }
    lemma_insert_contains(
        stable_sorted(items.drop_last(), le),
        items.last(),
        le,
        items[at],
    );
}

/// What is in order already is left as it is.
pub proof fn lemma_sorted_stays<T>(items: Seq<T>, le: spec_fn(T, T) -> bool)
    requires
        in_order(items, le),
    ensures
        stable_sorted(items, le) == items,
    decreases items.len(),
{
    if items.len() > 0 {
        let before = items.drop_last();
        assert forall|i: int, j: int| 0 <= i < j < before.len() implies le(
            #[trigger] before[i],
            #[trigger] before[j],
        ) by {
            assert(le(items[i], items[j]));
        }
        lemma_sorted_stays(before, le);
        if before.len() > 0 {
            assert(le(items[items.len() - 2], items[items.len() - 1]));
        }
        assert(before.push(items.last()) =~= items);
    }
}

/// Sorting a part beforehand makes no difference.
pub proof fn lemma_sorted_in_front<T>(front: Seq<T>, rest: Seq<T>, le: spec_fn(T, T) -> bool)
    requires
        total_preorder(le),
    ensures
        stable_sorted(stable_sorted(front, le) + rest, le) == stable_sorted(front + rest, le),
    decreases rest.len(),
{
    let sorted = stable_sorted(front, le);
    if rest.len() == 0 {
        let places = lemma_stable_sort(front, le);
        lemma_sorted_stays(sorted, le);
        assert(sorted + rest =~= sorted);
        assert(front + rest =~= front);
    } else {
        lemma_sorted_in_front(front, rest.drop_last(), le);
        assert((sorted + rest).drop_last() =~= sorted + rest.drop_last());
        assert((front + rest).drop_last() =~= front + rest.drop_last());
    }
}

proof fn lemma_insert_multiset<T>(sorted: Seq<T>, item: T, le: spec_fn(T, T) -> bool)
    ensures
        insert_in_order(sorted, item, le).to_multiset() == sorted.to_multiset().insert(item),
    decreases sorted.len(),
{
    broadcast use vstd::seq_lib::group_to_multiset_ensures;
    if !(sorted.len() == 0 || le(sorted.last(), item)) {
        lemma_insert_multiset(sorted.drop_last(), item, le);
        assert(sorted.drop_last().push(sorted.last()) =~= sorted);
        assert(insert_in_order(sorted, item, le).to_multiset()
            =~= sorted.to_multiset().insert(item));
    }
}

/// Sorting loses nothing and makes nothing up.
pub proof fn lemma_sorted_multiset<T>(items: Seq<T>, le: spec_fn(T, T) -> bool)
    ensures
        stable_sorted(items, le).to_multiset() == items.to_multiset(),
    decreases items.len(),
{
    broadcast use vstd::seq_lib::group_to_multiset_ensures;
    if items.len() > 0 {
        lemma_sorted_multiset(items.drop_last(), le);
        lemma_insert_multiset(stable_sorted(items.drop_last(), le), items.last(), le);
        assert(items.drop_last().push(items.last()) =~= items);
    }
}

/// Sorts `items`, keeping ties in their relative order; `le` decides whether its first
/// argument may stand before its second.
pub fn stable_sort<T, F: Fn(&T, &T) -> bool>(
    items: Vec<T>,
    le: F,
    Ghost(order): Ghost<spec_fn(T, T) -> bool>,
) -> (sorted: Vec<T>)
    requires
        forall|a: &T, b: &T| call_requires(le, (a, b)),
        forall|a: &T, b: &T, answer: bool|
            call_ensures(le, (a, b), answer) ==> answer == order(*a, *b),
    ensures
        sorted@ == stable_sorted(items@, order),
{
    let ghost all = items@;
    let mut sorted: Vec<T> = Vec::new();
    for item in iter: items
        invariant
            iter.seq() == all,
            sorted@ == stable_sorted(all.take(iter.index() as int), order),
            sorted@.len() == iter.index(),
            forall|a: &T, b: &T| call_requires(le, (a, b)),
            forall|a: &T, b: &T, answer: bool|
                call_ensures(le, (a, b), answer) ==> answer == order(*a, *b),
    {
        let ghost done = all.take(iter.index() as int);
        let ghost next = all.take(iter.index() as int + 1);
        assert(next.drop_last() =~= done);
        assert(next.last() == item);
        let mut at: usize = sorted.len();
        while at > 0 && !le(&sorted[at - 1], &item)
            invariant
                at <= sorted.len(),
                forall|i: int| at <= i < sorted@.len() ==> !order(#[trigger] sorted@[i], item),
                forall|a: &T, b: &T| call_requires(le, (a, b)),
                forall|a: &T, b: &T, answer: bool|
                    call_ensures(le, (a, b), answer) ==> answer == order(*a, *b),
            ensures
                at <= sorted.len(),
                at == 0 || order(sorted@[at - 1], item),
                forall|i: int| at <= i < sorted@.len() ==> !order(#[trigger] sorted@[i], item),
            decreases at,
        {
            at = at - 1;
        }
        proof {
            lemma_insert_at(sorted@, item, order, at as int);
        }
        sorted.insert(at, item);
    }
    assert(all.take(all.len() as int) =~= all);
    sorted
}

} // verus!
