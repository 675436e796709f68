//! What holds of the branch list however its methods are called: what the remotes have, and
//! what has been told.

use crate::branches::{lemma_rank_branches_consistent, lemma_sorted_branches, rank_branches, sorted_branches, BranchEntryV, BranchIdV};
use crate::order::{insert_in_order, lemma_consistent_total, lemma_sorted_contains, lemma_sorted_in_front, lemma_sorted_multiset, lemma_sorted_stays, not_after, rank_text, stable_sorted, Rank};
use crate::screens::branch::{grown, has_id, has_local, lemma_local_rows, lemma_locals_shadow_remotes, lemma_place_of_remote, lemma_snapshots_stay_in_order, local_rows, place_of_remote, remote_rows, remotes_in_order, snapshot_of, unshadowed, with_remote, without_name, BranchViewV, RemoteBranchesV};
use vstd::prelude::*;

verus! {

/// No two rows stand for one branch.
pub open spec fn distinct_ids(entries: Seq<BranchEntryV>) -> bool {
    forall|i: int, j: int|
        0 <= i < j < entries.len() ==> (#[trigger] entries[i]).id() != (#[trigger] entries[j]).id()
}

/// Every branch belongs to a remote.
pub open spec fn all_of(entries: Seq<BranchEntryV>, remote: Seq<char>) -> bool {
    forall|i: int| 0 <= i < entries.len() ==> (#[trigger] entries[i]).remote == Some(remote)
}

/// What is known of a remote: branches of its own, each once.
pub open spec fn snapshot_wf(known: RemoteBranchesV) -> bool {
    all_of(known.branches, known.remote) && distinct_ids(known.branches)
}

/// What is known of the remotes, each of which stands once.
pub open spec fn snapshots_wf(remotes: Seq<RemoteBranchesV>) -> bool {
    &&& remotes_in_order(remotes)
    &&& forall|i: int| 0 <= i < remotes.len() ==> snapshot_wf(#[trigger] remotes[i])
}

proof fn lemma_grown(known: Seq<BranchEntryV>, incoming: Seq<BranchEntryV>, remote: Seq<char>)
    requires
        all_of(known, remote),
        all_of(incoming, remote),
        distinct_ids(known),
    ensures
        all_of(grown(known, incoming), remote),
        distinct_ids(grown(known, incoming)),
        forall|k: int|
            0 <= k < incoming.len() ==> has_id(
                grown(known, incoming),
                (#[trigger] incoming[k]).id(),
            ),
    decreases incoming.len(),
{
    if incoming.len() > 0 {
        let shorter = incoming.drop_last();
        let last = incoming.last();
        let before = grown(known, shorter);
        let after = grown(known, incoming);
        assert forall|i: int| 0 <= i < shorter.len() implies (#[trigger] shorter[i]).remote == Some(
            remote,
        ) by {
            assert(shorter[i] == incoming[i]);
        }
        lemma_grown(known, shorter, remote);
        assert(last == incoming[incoming.len() - 1]);
        if !has_id(before, last.id()) {
            assert(after[before.len() as int] == last);
            assert forall|i: int, j: int| 0 <= i < j < after.len() implies (
            #[trigger] after[i]).id() != (#[trigger] after[j]).id() by {
                assert(after[i] == before[i]);
                if j < before.len() {
                    assert(after[j] == before[j]);
                }
            }
        }
        assert forall|k: int| 0 <= k < incoming.len() implies has_id(
            after,
            (#[trigger] incoming[k]).id(),
        ) by {
            if k < shorter.len() {
                assert(shorter[k] == incoming[k]);
                let i = choose|i: int|
                    0 <= i < before.len() && (#[trigger] before[i]).id() == incoming[k].id();
                assert(after[i] == before[i]);
            }
        }
    }
}

/// What is known already adds nothing.
proof fn lemma_nothing_new(known: Seq<BranchEntryV>, incoming: Seq<BranchEntryV>)
    requires
        forall|k: int| 0 <= k < incoming.len() ==> has_id(known, (#[trigger] incoming[k]).id()),
    ensures
        grown(known, incoming) == known,
    decreases incoming.len(),
{
    if incoming.len() > 0 {
        let shorter = incoming.drop_last();
        assert forall|k: int| 0 <= k < shorter.len() implies has_id(
            known,
            (#[trigger] shorter[k]).id(),
        ) by {
            assert(shorter[k] == incoming[k]);
        }
        lemma_nothing_new(known, shorter);
        assert(has_id(known, incoming[incoming.len() - 1].id()));
    }
}

/// Sorting keeps whose branches they are, and that each stands once.
proof fn lemma_sorted_snapshot(entries: Seq<BranchEntryV>, remote: Seq<char>)
    requires
        all_of(entries, remote),
        distinct_ids(entries),
    ensures
        all_of(sorted_branches(entries), remote),
        distinct_ids(sorted_branches(entries)),
        forall|id: BranchIdV| has_id(entries, id) ==> #[trigger] has_id(
            sorted_branches(entries),
            id,
        ),
{
    let sorted = sorted_branches(entries);
    let places = lemma_sorted_branches(entries);
    assert forall|i: int, j: int| 0 <= i < j < sorted.len() implies (#[trigger] sorted[i]).id() != (
    #[trigger] sorted[j]).id() by {
        let (a, b) = (places[i], places[j]);
        assert(a != b);
        assert(sorted[i] == entries[a] && sorted[j] == entries[b]);
        if a < b {
            assert(entries[a].id() != entries[b].id());
        } else {
            assert(entries[b].id() != entries[a].id());
        }
    }
    assert forall|i: int| 0 <= i < sorted.len() implies (#[trigger] sorted[i]).remote == Some(
        remote,
    ) by {
        assert(sorted[i] == entries[places[i]]);
    }
    assert forall|id: BranchIdV| has_id(entries, id) implies #[trigger] has_id(sorted, id) by {
        let at = choose|i: int| 0 <= i < entries.len() && (#[trigger] entries[i]).id() == id;
        lemma_sorted_contains(entries, not_after(rank_branches()), at);
        let k = choose|k: int| 0 <= k < sorted.len() && sorted[k] == entries[at];
        assert(sorted[k].id() == id);
    }
}

proof fn lemma_snapshot_of(remotes: Seq<RemoteBranchesV>, remote: Seq<char>)
    requires
        snapshots_wf(remotes),
    ensures
        all_of(snapshot_of(remotes, remote), remote),
        distinct_ids(snapshot_of(remotes, remote)),
    decreases remotes.len(),
{
    if remotes.len() > 0 {
        let rest = remotes.drop_first();
        assert(snapshot_wf(remotes[0]));
        assert forall|i: int| 0 <= i < rest.len() implies snapshot_wf(#[trigger] rest[i]) by {
            assert(rest[i] == remotes[i + 1]);
        }
        assert forall|i: int, j: int| 0 <= i < j < rest.len() implies rank_text(
            (#[trigger] rest[i]).remote,
            (#[trigger] rest[j]).remote,
        ) == Rank::Less by {
            assert(rest[i] == remotes[i + 1] && rest[j] == remotes[j + 1]);
        }
        lemma_snapshot_of(rest, remote);
    }
}

/// What is found at the first place of a remote.
proof fn lemma_snapshot_at(remotes: Seq<RemoteBranchesV>, remote: Seq<char>, at: int)
    requires
        0 <= at < remotes.len(),
        remotes[at].remote == remote,
        forall|i: int|
            0 <= i < at ==> rank_text(remote, (#[trigger] remotes[i]).remote) == Rank::Greater,
    ensures
        snapshot_of(remotes, remote) == remotes[at].branches,
        place_of_remote(remotes, remote) == at,
    decreases remotes.len(),
{
    if at > 0 {
        let rest = remotes.drop_first();
        assert(rank_text(remote, remotes[0].remote) == Rank::Greater);
        lemma_itself(remote);
        assert(rest[at - 1] == remotes[at]);
        assert forall|i: int| 0 <= i < at - 1 implies rank_text(
            remote,
            (#[trigger] rest[i]).remote,
        ) == Rank::Greater by {
            assert(rest[i] == remotes[i + 1]);
        }
        lemma_snapshot_at(rest, remote, at - 1);
    }
}

proof fn lemma_itself(text: Seq<char>)
    ensures
        rank_text(text, text) == Rank::Equal,
{
    crate::order::lemma_rank_text_consistent();
    let rank = |a: Seq<char>, b: Seq<char>| rank_text(a, b);
    assert(rank(text, text) == rank_text(text, text));
}

/// What was put in place of a remote is found there.
proof fn lemma_put_is_found(
    remotes: Seq<RemoteBranchesV>,
    remote: Seq<char>,
    branches: Seq<BranchEntryV>,
)
    ensures
        snapshot_of(with_remote(remotes, remote, branches), remote) == branches,
        with_remote(with_remote(remotes, remote, branches), remote, branches) == with_remote(
            remotes,
            remote,
            branches,
        ),
{
    lemma_place_of_remote(remotes, remote);
    let place = place_of_remote(remotes, remote);
    let after = with_remote(remotes, remote, branches);
    assert(after[place] == (RemoteBranchesV { remote, branches }));
    assert forall|i: int| 0 <= i < place implies rank_text(remote, (#[trigger] after[i]).remote)
        == Rank::Greater by {
        assert(after[i] == remotes[i]);
    }
    lemma_snapshot_at(after, remote, place);
    assert(with_remote(after, remote, branches) =~= after);
}

/// Taking in what a remote has keeps what is known in order.
pub proof fn lemma_merge_keeps_snapshots(
    view: BranchViewV,
    remote: Seq<char>,
    incoming: Seq<BranchEntryV>,
)
    requires
        snapshots_wf(view.remote_branches),
        all_of(incoming, remote),
    ensures
        snapshots_wf(view.with_snapshot(remote, incoming).remote_branches),
{
    let remotes = view.remote_branches;
    let known = snapshot_of(remotes, remote);
    lemma_snapshot_of(remotes, remote);
    lemma_grown(known, incoming, remote);
    lemma_sorted_snapshot(grown(known, incoming), remote);
    let branches = sorted_branches(grown(known, incoming));
    lemma_snapshots_stay_in_order(remotes, remote, branches);
    lemma_place_of_remote(remotes, remote);
    let place = place_of_remote(remotes, remote);
    let after = with_remote(remotes, remote, branches);
    assert forall|i: int| 0 <= i < after.len() implies snapshot_wf(#[trigger] after[i]) by {
        if place < remotes.len() && remotes[place].remote == remote {
            if i != place {
                assert(after[i] == remotes[i]);
            }
        } else if i < place {
            assert(after[i] == remotes[i]);
        } else if i > place {
            assert(after[i] == remotes[i - 1]);
        }
    }
}

proof fn lemma_unshadowed_ids(known: RemoteBranchesV, rows: Seq<BranchEntryV>)
    requires
        snapshot_wf(known),
    ensures
        all_of(unshadowed(known.branches, rows), known.remote),
        distinct_ids(unshadowed(known.branches, rows)),
        forall|i: int|
            0 <= i < unshadowed(known.branches, rows).len() ==> has_id(
                known.branches,
                (#[trigger] unshadowed(known.branches, rows)[i]).id(),
            ),
    decreases known.branches.len(),
{
    let all = known.branches;
    if all.len() > 0 {
        let shorter = RemoteBranchesV { branches: all.drop_last(), ..known };
        assert forall|i: int| 0 <= i < shorter.branches.len() implies (
        #[trigger] shorter.branches[i]).remote == Some(known.remote) by {
            assert(shorter.branches[i] == all[i]);
        }
        assert forall|i: int, j: int| 0 <= i < j < shorter.branches.len() implies (
        #[trigger] shorter.branches[i]).id() != (#[trigger] shorter.branches[j]).id() by {
            assert(shorter.branches[i] == all[i] && shorter.branches[j] == all[j]);
        }
        lemma_unshadowed_ids(shorter, rows);
        let before = unshadowed(shorter.branches, rows);
        let after = unshadowed(all, rows);
        let last = all[all.len() - 1];
        assert(last == all.last());
        assert forall|i: int| 0 <= i < after.len() implies has_id(
            all,
            (#[trigger] after[i]).id(),
        ) by {
            if i < before.len() {
                assert(after[i] == before[i]);
                let k = choose|k: int|
                    0 <= k < shorter.branches.len() && (#[trigger] shorter.branches[k]).id()
                        == before[i].id();
                assert(all[k].id() == after[i].id());
            }
        }
        assert forall|i: int, j: int| 0 <= i < j < after.len() implies (#[trigger] after[i]).id()
            != (#[trigger] after[j]).id() by {
            assert(after[i] == before[i]);
            if j < before.len() {
                assert(after[j] == before[j]);
            } else {
                let k = choose|k: int|
                    0 <= k < shorter.branches.len() && (#[trigger] shorter.branches[k]).id()
                        == before[i].id();
                assert(all[k] == shorter.branches[k]);
                assert(all[k].id() != all[all.len() - 1].id());
            }
        }
    }
}

/// The branches that the remotes add, each once.
proof fn lemma_remote_row_ids(remotes: Seq<RemoteBranchesV>, rows: Seq<BranchEntryV>)
    requires
        snapshots_wf(remotes),
    ensures
        distinct_ids(remote_rows(remotes, rows)),
        forall|i: int|
            0 <= i < remote_rows(remotes, rows).len() ==> (#[trigger] remote_rows(
                remotes,
                rows,
            )[i]).remote is Some && exists|k: int|
                0 <= k < remotes.len() && remote_rows(remotes, rows)[i].remote == Some(
                    (#[trigger] remotes[k]).remote,
                ),
    decreases remotes.len(),
{
    if remotes.len() > 0 {
        let shorter = remotes.drop_last();
        let last = remotes[remotes.len() - 1];
        assert forall|i: int| 0 <= i < shorter.len() implies snapshot_wf(#[trigger] shorter[i]) by {
            assert(shorter[i] == remotes[i]);
        }
        assert forall|i: int, j: int| 0 <= i < j < shorter.len() implies rank_text(
            (#[trigger] shorter[i]).remote,
            (#[trigger] shorter[j]).remote,
        ) == Rank::Less by {
            assert(shorter[i] == remotes[i] && shorter[j] == remotes[j]);
        }
        assert(snapshot_wf(last));
        lemma_remote_row_ids(shorter, rows);
        lemma_unshadowed_ids(last, rows);
        let before = remote_rows(shorter, rows);
        let own = unshadowed(last.branches, rows);
        let all = remote_rows(remotes, rows);
        assert(all == before + own);
        assert forall|i: int| 0 <= i < all.len() implies (#[trigger] all[i]).remote is Some
            && exists|k: int|
            0 <= k < remotes.len() && all[i].remote == Some((#[trigger] remotes[k]).remote) by {
            if i < before.len() {
                assert(all[i] == before[i]);
                let k = choose|k: int|
                    0 <= k < shorter.len() && before[i].remote == Some(
                        (#[trigger] shorter[k]).remote,
                    );
                assert(all[i].remote == Some(remotes[k].remote));
            } else {
                assert(all[i] == own[i - before.len()]);
                assert(all[i].remote == Some(remotes[remotes.len() - 1].remote));
            }
        }
        assert forall|i: int, j: int| 0 <= i < j < all.len() implies (#[trigger] all[i]).id() != (
        #[trigger] all[j]).id() by {
            if j < before.len() {
                assert(all[i] == before[i] && all[j] == before[j]);
            } else if i >= before.len() {
                assert(all[i] == own[i - before.len()] && all[j] == own[j - before.len()]);
            } else {
                assert(all[i] == before[i] && all[j] == own[j - before.len()]);
                let k = choose|k: int|
                    0 <= k < shorter.len() && before[i].remote == Some(
                        (#[trigger] shorter[k]).remote,
                    );
                assert(shorter[k] == remotes[k]);
                assert(rank_text(remotes[k].remote, remotes[remotes.len() - 1].remote)
                    == Rank::Less);
                lemma_itself(last.remote);
            }
        }
    }
}

/// A remote branch among the rows does not change the local ones.
proof fn lemma_insert_remote(
    sorted: Seq<BranchEntryV>,
    item: BranchEntryV,
    le: spec_fn(BranchEntryV, BranchEntryV) -> bool,
)
    requires
        item.remote is Some,
    ensures
        local_rows(insert_in_order(sorted, item, le)) == local_rows(sorted),
    decreases sorted.len(),
{
    let out = insert_in_order(sorted, item, le);
    if sorted.len() == 0 || le(sorted.last(), item) {
        assert(out.drop_last() =~= sorted);
    } else {
        lemma_insert_remote(sorted.drop_last(), item, le);
        assert(out.drop_last() =~= insert_in_order(sorted.drop_last(), item, le));
    }
}

proof fn lemma_all_local(entries: Seq<BranchEntryV>)
    requires
        forall|i: int| 0 <= i < entries.len() ==> (#[trigger] entries[i]).remote is None,
    ensures
        local_rows(entries) == entries,
    decreases entries.len(),
{
    if entries.len() > 0 {
        let before = entries.drop_last();
        assert forall|i: int| 0 <= i < before.len() implies (#[trigger] before[i]).remote
            is None by {
            assert(before[i] == entries[i]);
        }
        lemma_all_local(before);
        assert(entries[entries.len() - 1].remote is None);
        assert(before.push(entries.last()) =~= entries);
    }
}

/// The local rows of a sorted list are the sorted local rows.
proof fn lemma_locals_of_sorted(locals: Seq<BranchEntryV>, others: Seq<BranchEntryV>)
    requires
        forall|i: int| 0 <= i < locals.len() ==> (#[trigger] locals[i]).remote is None,
        forall|i: int| 0 <= i < others.len() ==> (#[trigger] others[i]).remote is Some,
    ensures
        local_rows(sorted_branches(locals + others)) == sorted_branches(locals),
    decreases others.len(),
{
    let le = not_after(rank_branches());
    if others.len() == 0 {
        assert(locals + others =~= locals);
        let places = lemma_sorted_branches(locals);
        let sorted = sorted_branches(locals);
        assert forall|i: int| 0 <= i < sorted.len() implies (#[trigger] sorted[i]).remote
            is None by {
            assert(sorted[i] == locals[places[i]]);
        }
        lemma_all_local(sorted);
    } else {
        let shorter = others.drop_last();
        assert forall|i: int| 0 <= i < shorter.len() implies (#[trigger] shorter[i]).remote
            is Some by {
            assert(shorter[i] == others[i]);
        }
        lemma_locals_of_sorted(locals, shorter);
        assert((locals + others).drop_last() =~= locals + shorter);
        assert(others[others.len() - 1].remote is Some);
        assert((locals + others).last() == others.last());
        lemma_insert_remote(stable_sorted(locals + shorter, le), others.last(), le);
    }
}

proof fn lemma_same_shadows(
    branches: Seq<BranchEntryV>,
    first: Seq<BranchEntryV>,
    second: Seq<BranchEntryV>,
)
    requires
        forall|name: Seq<char>| has_local(first, name) == has_local(second, name),
    ensures
        unshadowed(branches, first) == unshadowed(branches, second),
    decreases branches.len(),
{
    if branches.len() > 0 {
        lemma_same_shadows(branches.drop_last(), first, second);
        assert(has_local(first, branches.last().name) == has_local(second, branches.last().name));
    }
}

proof fn lemma_same_remote_rows(
    remotes: Seq<RemoteBranchesV>,
    first: Seq<BranchEntryV>,
    second: Seq<BranchEntryV>,
)
    requires
        forall|name: Seq<char>| has_local(first, name) == has_local(second, name),
    ensures
        remote_rows(remotes, first) == remote_rows(remotes, second),
    decreases remotes.len(),
{
    if remotes.len() > 0 {
        lemma_same_remote_rows(remotes.drop_last(), first, second);
        lemma_same_shadows(remotes.last().branches, first, second);
    }
}

proof fn lemma_sorted_same_locals(locals: Seq<BranchEntryV>)
    ensures
        forall|name: Seq<char>|
            has_local(locals, name) == has_local(sorted_branches(locals), name),
{
    let sorted = sorted_branches(locals);
    let places = lemma_sorted_branches(locals);
    assert forall|name: Seq<char>| has_local(locals, name) == has_local(sorted, name) by {
        if has_local(locals, name) {
            let at = choose|i: int|
                0 <= i < locals.len() && (#[trigger] locals[i]).remote is None && locals[i].name
                    == name;
            lemma_sorted_contains(locals, not_after(rank_branches()), at);
            let k = choose|k: int| 0 <= k < sorted.len() && sorted[k] == locals[at];
            assert(sorted[k].remote is None && sorted[k].name == name);
        }
        if has_local(sorted, name) {
            let at = choose|i: int|
                0 <= i < sorted.len() && (#[trigger] sorted[i]).remote is None && sorted[i].name
                    == name;
            assert(sorted[at] == locals[places[at]]);
            assert(locals[places[at]].remote is None && locals[places[at]].name == name);
        }
    }
}

/// Taking in what a remote has keeps the local rows, each as often as it stood; no remote row
/// has the name of a local one; no remote branch stands twice; and taking the same in again
/// changes nothing.
pub proof fn lemma_merge_remote_snapshot(
    view: BranchViewV,
    remote: Seq<char>,
    incoming: Seq<BranchEntryV>,
)
    requires
        snapshots_wf(view.remote_branches),
        all_of(incoming, remote),
    ensures
        ({
            let after = view.with_snapshot(remote, incoming);
            &&& local_rows(after.entries).to_multiset() == local_rows(view.entries).to_multiset()
            &&& forall|i: int, j: int|
                0 <= i < after.entries.len() && 0 <= j < after.entries.len() && (
                #[trigger] after.entries[i]).remote is Some && (#[trigger] after.entries[j]).remote
                    is None ==> after.entries[i].name != after.entries[j].name
            &&& forall|i: int, j: int|
                0 <= i < j < after.entries.len() && (#[trigger] after.entries[i]).remote is Some
                    && (#[trigger] after.entries[j]).remote is Some ==> after.entries[i].id()
                    != after.entries[j].id()
            &&& after.with_snapshot(remote, incoming) == after
        }),
{
    let le = not_after(rank_branches());
    lemma_rank_branches_consistent();
    lemma_consistent_total(rank_branches());
    let after = view.with_snapshot(remote, incoming);
    let remotes = after.remote_branches;
    let locals = local_rows(view.entries);
    let others = remote_rows(remotes, locals);
    let all = locals + others;
    lemma_local_rows(view.entries);
    lemma_merge_keeps_snapshots(view, remote, incoming);
    lemma_remote_row_ids(remotes, locals);
    assert forall|i: int| 0 <= i < others.len() implies (#[trigger] others[i]).remote is Some by {}
    lemma_locals_of_sorted(locals, others);
    lemma_sorted_multiset(locals, le);
    let kept = local_rows(after.entries);
    assert(kept == sorted_branches(locals));
    // No remote row has the name of a local one.
    lemma_locals_shadow_remotes(view, remote, incoming);
    let places = lemma_sorted_branches(all);
    assert forall|i: int, j: int|
        0 <= i < after.entries.len() && 0 <= j < after.entries.len() && (
        #[trigger] after.entries[i]).remote is Some && (#[trigger] after.entries[j]).remote
            is None implies after.entries[i].name != after.entries[j].name by {
        let from = places[j];
        assert(after.entries[j] == all[from]);
        if from >= locals.len() {
            assert(all[from] == others[from - locals.len()]);
        }
        assert(all[from] == locals[from]);
        lemma_local_row_stands(view.entries, from);
    }
    assert forall|i: int, j: int|
        0 <= i < j < after.entries.len() && (#[trigger] after.entries[i]).remote is Some && (
        #[trigger] after.entries[j]).remote is Some implies after.entries[i].id()
        != after.entries[j].id() by {
        let (a, b) = (places[i], places[j]);
        assert(a != b);
        assert(after.entries[i] == all[a] && after.entries[j] == all[b]);
        if a < locals.len() {
            assert(all[a] == locals[a]);
        }
        if b < locals.len() {
            assert(all[b] == locals[b]);
        }
        assert(all[a] == others[a - locals.len()] && all[b] == others[b - locals.len()]);
        if a < b {
            assert(others[a - locals.len()].id() != others[b - locals.len()].id());
        } else {
            assert(others[b - locals.len()].id() != others[a - locals.len()].id());
        }
    }
    // Once more.
    let known = snapshot_of(view.remote_branches, remote);
    lemma_snapshot_of(view.remote_branches, remote);
    lemma_grown(known, incoming, remote);
    lemma_sorted_snapshot(grown(known, incoming), remote);
    let branches = sorted_branches(grown(known, incoming));
    lemma_put_is_found(view.remote_branches, remote, branches);
    assert forall|k: int| 0 <= k < incoming.len() implies has_id(
        branches,
        (#[trigger] incoming[k]).id(),
    ) by {
        assert(has_id(grown(known, incoming), incoming[k].id()));
    }
    lemma_nothing_new(branches, incoming);
    let sorted = lemma_sorted_branches(grown(known, incoming));
    lemma_sorted_stays(branches, le);
    let again = after.with_snapshot(remote, incoming);
    assert(again.remote_branches == remotes);
    lemma_sorted_same_locals(locals);
    lemma_same_remote_rows(remotes, locals, kept);
    lemma_sorted_in_front(locals, others, le);
    assert(again.entries == after.entries);
    assert(again =~= after);
}

/// A local row stands in the list that it was taken from.
proof fn lemma_local_row_stands(entries: Seq<BranchEntryV>, at: int)
    requires
        0 <= at < local_rows(entries).len(),
    ensures
        has_local(entries, local_rows(entries)[at].name),
    decreases entries.len(),
{
    lemma_local_rows(entries);
    let shorter = entries.drop_last();
    let before = local_rows(shorter);
    let row = local_rows(entries)[at];
    if at < before.len() {
        lemma_local_row_stands(shorter, at);
        assert(before[at] == row);
        let i = choose|i: int|
            0 <= i < shorter.len() && (#[trigger] shorter[i]).remote is None && shorter[i].name
                == row.name;
        assert(entries[i].remote is None && entries[i].name == row.name);
    } else {
        assert(row == entries.last());
        assert(entries[entries.len() - 1].remote is None);
    }
}

/// A call of a method that changes the branch list.
pub enum ViewCall {
    ResetRemotes,
    MergeRemoteSnapshot { remote: Seq<char>, incoming: Seq<BranchEntryV> },
    PromoteRemoteToLocal { name: Seq<char> },
    ApplyOpenIndicators,
    RecordFetchWarning { remote: Seq<char> },
    ShouldWarnUnsupportedRefs { generation: u64, skipped: bool },
    ClearRemoteSnapshots,
}

/// What `record_fetch_warning` answers.
pub open spec fn first_failure(view: BranchViewV, remote: Seq<char>) -> bool {
    !view.fetch_warning_remotes.contains(remote)
}

/// What `should_warn_unsupported_refs` answers.
pub open spec fn warns_of_refs(view: BranchViewV, generation: u64, skipped: bool) -> bool {
    skipped && view.unsupported_ref_warning_generation != Some(generation)
}

/// The branch list after a call, as the method states it.
pub open spec fn after_call(view: BranchViewV, call: ViewCall) -> BranchViewV {
    match call {
        ViewCall::ResetRemotes => view.without_remotes(),
        ViewCall::MergeRemoteSnapshot { remote, incoming } => view.with_snapshot(remote, incoming),
        ViewCall::PromoteRemoteToLocal { name } => view.promoted(name),
        ViewCall::ApplyOpenIndicators => view.marked_open(),
        ViewCall::RecordFetchWarning { remote } => BranchViewV {
            fetch_warning_remotes: if first_failure(view, remote) {
                view.fetch_warning_remotes.push(remote)
            } else {
                view.fetch_warning_remotes
            },
            ..view
        },
        ViewCall::ShouldWarnUnsupportedRefs { generation, skipped } => BranchViewV {
            unsupported_ref_warning_generation: if warns_of_refs(view, generation, skipped) {
                Some(generation)
            } else {
                view.unsupported_ref_warning_generation
            },
            ..view
        },
        ViewCall::ClearRemoteSnapshots => BranchViewV { remote_branches: Seq::empty(), ..view },
    }
}

/// A new branch list after a history of calls.
pub open spec fn view_after(calls: Seq<ViewCall>) -> BranchViewV
    decreases calls.len(),
{
    if calls.len() == 0 {
        BranchViewV::fresh()
    } else {
        after_call(view_after(calls.drop_last()), calls.last())
    }
}

/// Whether a failure of a remote was recorded since the remotes were last reset.
pub open spec fn failure_recorded(calls: Seq<ViewCall>, remote: Seq<char>) -> bool
    decreases calls.len(),
{
    if calls.len() == 0 {
        false
    } else {
        match calls.last() {
            ViewCall::ResetRemotes => false,
            ViewCall::RecordFetchWarning { remote: failed } => failed == remote
                || failure_recorded(calls.drop_last(), remote),
            _ => failure_recorded(calls.drop_last(), remote),
        }
    }
}

/// `record_fetch_warning` says that a failure is new exactly where none of that remote was
/// recorded since the list was made or the remotes were last reset; it leaves the rows and
/// what is shown of them alone.
pub proof fn lemma_failures_are_told_once(calls: Seq<ViewCall>, remote: Seq<char>)
    ensures
        first_failure(view_after(calls), remote) == !failure_recorded(calls, remote),
        ({
            let view = view_after(calls);
            let after = after_call(view, ViewCall::RecordFetchWarning { remote });
            after.entries == view.entries && after.list == view.list
        }),
    decreases calls.len(),
{
    if calls.len() > 0 {
        let before = view_after(calls.drop_last());
        lemma_failures_are_told_once(calls.drop_last(), remote);
        match calls.last() {
            ViewCall::RecordFetchWarning { remote: failed } => {
                let known = before.fetch_warning_remotes;
                let after = view_after(calls).fetch_warning_remotes;
                if !known.contains(failed) {
                    assert(after == known.push(failed));
                    assert(after[known.len() as int] == failed);
                    if known.contains(remote) {
                        let at = choose|i: int| 0 <= i < known.len() && known[i] == remote;
                        assert(after[at] == remote);
                    }
                    if after.contains(remote) && remote != failed {
                        let at = choose|i: int| 0 <= i < after.len() && after[i] == remote;
                        assert(known[at] == remote);
                    }
                }
            },
            _ => {},
        }
    }
}

/// The visit of the latest call that told of names that were left out.
pub open spec fn refs_told(calls: Seq<ViewCall>) -> Option<u64>
    decreases calls.len(),
{
    if calls.len() == 0 {
        None
    } else {
        let before = refs_told(calls.drop_last());
        match calls.last() {
            ViewCall::ShouldWarnUnsupportedRefs { generation, skipped } => if skipped && before
                != Some(generation) {
                Some(generation)
            } else {
                before
            },
            _ => before,
        }
    }
}

/// `should_warn_unsupported_refs` answers yes exactly where names were left out and the
/// latest earlier call that answered yes, if there was one, was of another visit.
pub proof fn lemma_refs_are_told_by_visit(calls: Seq<ViewCall>, generation: u64, skipped: bool)
    ensures
        view_after(calls).unsupported_ref_warning_generation == refs_told(calls),
        warns_of_refs(view_after(calls), generation, skipped) == (skipped && refs_told(calls)
            != Some(generation)),
    decreases calls.len(),
{
    if calls.len() > 0 {
        lemma_refs_are_told_by_visit(calls.drop_last(), generation, skipped);
    }
}

/// Whether a call asks about names that were left out in another visit.
pub open spec fn asks_of_other_visit(call: ViewCall, generation: u64) -> bool {
    match call {
        ViewCall::ShouldWarnUnsupportedRefs { generation: visit, .. } => visit != generation,
        _ => false,
    }
}

/// Once a visit was told of, it is not told of again before another visit was asked about.
pub proof fn lemma_refs_are_told_once(
    calls: Seq<ViewCall>,
    more: Seq<ViewCall>,
    generation: u64,
    skipped: bool,
)
    requires
        warns_of_refs(view_after(calls), generation, true),
        forall|i: int|
            0 <= i < more.len() ==> !asks_of_other_visit(#[trigger] more[i], generation),
    ensures
        ({
            let told = calls.push(
                ViewCall::ShouldWarnUnsupportedRefs { generation, skipped: true },
            );
            !warns_of_refs(view_after(told + more), generation, skipped)
        }),
    decreases more.len(),
{
    let told = calls.push(ViewCall::ShouldWarnUnsupportedRefs { generation, skipped: true });
    lemma_refs_are_told_by_visit(calls, generation, true);
    lemma_refs_are_told_by_visit(told + more, generation, skipped);
    lemma_told_stays(told, more, generation);
}

proof fn lemma_told_stays(told: Seq<ViewCall>, more: Seq<ViewCall>, generation: u64)
    requires
        told.len() > 0,
        told.last() == (ViewCall::ShouldWarnUnsupportedRefs { generation, skipped: true }),
        forall|i: int|
            0 <= i < more.len() ==> !asks_of_other_visit(#[trigger] more[i], generation),
    ensures
        refs_told(told + more) == Some(generation),
    decreases more.len(),
{
    if more.len() == 0 {
        assert(told + more =~= told);
    } else {
        let shorter = more.drop_last();
        assert forall|i: int| 0 <= i < shorter.len() implies !asks_of_other_visit(
            #[trigger] shorter[i],
            generation,
        ) by {
            assert(shorter[i] == more[i]);
        }
        lemma_told_stays(told, shorter, generation);
        assert((told + more).drop_last() =~= told + shorter);
        assert(!asks_of_other_visit(more[more.len() - 1], generation));
    }
}

proof fn lemma_without_name(known: RemoteBranchesV, name: Seq<char>)
    requires
        snapshot_wf(known),
    ensures
        snapshot_wf(RemoteBranchesV { branches: without_name(known.branches, name), ..known }),
        forall|i: int|
            0 <= i < without_name(known.branches, name).len() ==> has_id(
                known.branches,
                (#[trigger] without_name(known.branches, name)[i]).id(),
            ),
    decreases known.branches.len(),
{
    let all = known.branches;
    if all.len() > 0 {
        let shorter = RemoteBranchesV { branches: all.drop_last(), ..known };
        assert forall|i: int| 0 <= i < shorter.branches.len() implies (
        #[trigger] shorter.branches[i]).remote == Some(known.remote) by {
            assert(shorter.branches[i] == all[i]);
        }
        assert forall|i: int, j: int| 0 <= i < j < shorter.branches.len() implies (
        #[trigger] shorter.branches[i]).id() != (#[trigger] shorter.branches[j]).id() by {
            assert(shorter.branches[i] == all[i] && shorter.branches[j] == all[j]);
        }
        lemma_without_name(shorter, name);
        let before = without_name(shorter.branches, name);
        let after = without_name(all, name);
        assert(all.last() == all[all.len() - 1]);
        assert forall|i: int| 0 <= i < after.len() implies has_id(
            all,
            (#[trigger] after[i]).id(),
        ) by {
            if i < before.len() {
                assert(after[i] == before[i]);
                let k = choose|k: int|
                    0 <= k < shorter.branches.len() && (#[trigger] shorter.branches[k]).id()
                        == before[i].id();
                assert(all[k].id() == after[i].id());
            }
        }
        assert forall|i: int, j: int| 0 <= i < j < after.len() implies (#[trigger] after[i]).id()
            != (#[trigger] after[j]).id() by {
            assert(after[i] == before[i]);
            if j < before.len() {
                assert(after[j] == before[j]);
            } else {
                let k = choose|k: int|
                    0 <= k < shorter.branches.len() && (#[trigger] shorter.branches[k]).id()
                        == before[i].id();
                assert(all[k] == shorter.branches[k]);
                assert(all[k].id() != all[all.len() - 1].id());
            }
        }
    }
}

/// Whether every merge of a history brings branches of its own remote.
pub open spec fn merges_own_branches(calls: Seq<ViewCall>) -> bool {
    forall|i: int|
        0 <= i < calls.len() ==> (#[trigger] calls[i] matches ViewCall::MergeRemoteSnapshot {
            remote,
            incoming,
        } ==> all_of(incoming, remote))
}

/// Whatever the calls, what is known of the remotes stays in order, with branches of their
/// own, each once.
pub proof fn lemma_history_keeps_snapshots(calls: Seq<ViewCall>)
    requires
        merges_own_branches(calls),
    ensures
        snapshots_wf(view_after(calls).remote_branches),
    decreases calls.len(),
{
    if calls.len() > 0 {
        let shorter = calls.drop_last();
        assert forall|i: int| 0 <= i < shorter.len() implies (#[trigger] shorter[i] matches
            ViewCall::MergeRemoteSnapshot { remote, incoming } ==> all_of(incoming, remote)) by {
            assert(shorter[i] == calls[i]);
        }
        lemma_history_keeps_snapshots(shorter);
        let before = view_after(shorter);
        let last = calls[calls.len() - 1];
        assert(last == calls.last());
        match last {
            ViewCall::MergeRemoteSnapshot { remote, incoming } => {
                lemma_merge_keeps_snapshots(before, remote, incoming);
            },
            ViewCall::PromoteRemoteToLocal { name } => {
                let remotes = before.remote_branches;
                let after = view_after(calls).remote_branches;
                assert forall|i: int| 0 <= i < after.len() implies snapshot_wf(
                    #[trigger] after[i],
                ) by {
                    assert(snapshot_wf(remotes[i]));
                    lemma_without_name(remotes[i], name);
                }
                assert forall|i: int, j: int| 0 <= i < j < after.len() implies rank_text(
                    (#[trigger] after[i]).remote,
                    (#[trigger] after[j]).remote,
                ) == Rank::Less by {
                    assert(after[i].remote == remotes[i].remote);
                    assert(after[j].remote == remotes[j].remote);
                }
            },
            _ => {},
        }
    }
}

} // verus!
