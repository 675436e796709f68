//! What git prints, and what it is asked for.

use crate::git::cli::{default_branch_of, poll_step, remote_branch, remote_branches, remove_outcome, says_dirty, split_once, ChildState, PollStep};
use crate::git::command::removal_line;
use crate::git::{porcelain_after, PorcelainV, WorktreeV};
use crate::text::{begins_with, lossy_text, occurs, trimmed};
use vstd::prelude::*;
use vstd::string::*;
use vstd::utf8::{encode_utf8, encode_utf8_decode_utf8, encode_utf8_valid_utf8, is_ascii_chars, is_ascii_chars_encode_utf8, valid_utf8};

verus! {

/// The fields that git prints of a checkout: where it is, its branch where it has one, and the
/// end of the record.
pub open spec fn printed(worktree: WorktreeV) -> Seq<Seq<u8>> {
    let place = seq!["worktree ".spec_bytes() + worktree.path];
    let named = match worktree.branch {
        Some(branch) => place.push("branch refs/heads/".spec_bytes() + encode_utf8(branch)),
        None => place,
    };
    named.push(Seq::empty())
}

/// The fields that git prints of some checkouts.
pub open spec fn all_printed(worktrees: Seq<WorktreeV>) -> Seq<Seq<u8>>
    decreases worktrees.len(),
{
    if worktrees.len() == 0 {
        Seq::empty()
    } else {
        all_printed(worktrees.drop_last()) + printed(worktrees.last())
    }
}

proof fn lemma_keys_differ(path: Seq<u8>, branch: Seq<u8>)
    ensures
        begins_with("worktree ".spec_bytes() + path, "worktree ".spec_bytes()),
        ("worktree ".spec_bytes() + path).skip("worktree ".spec_bytes().len() as int) == path,
        !begins_with("branch refs/heads/".spec_bytes() + branch, "worktree ".spec_bytes()),
        begins_with(
            "branch refs/heads/".spec_bytes() + branch,
            "branch refs/heads/".spec_bytes(),
        ),
        ("branch refs/heads/".spec_bytes() + branch).skip(
            "branch refs/heads/".spec_bytes().len() as int,
        ) == branch,
        !begins_with(Seq::<u8>::empty(), "worktree ".spec_bytes()),
        !begins_with(Seq::<u8>::empty(), "branch refs/heads/".spec_bytes()),
{
    let (w, b) = ("worktree ".spec_bytes(), "branch refs/heads/".spec_bytes());
    lemma_first_bytes();
    assert((w + path).take(w.len() as int) =~= w);
    assert((w + path).skip(w.len() as int) =~= path);
    assert((b + branch).take(b.len() as int) =~= b);
    assert((b + branch).skip(b.len() as int) =~= branch);
    if begins_with(b + branch, w) {
        assert((b + branch).take(w.len() as int)[0] == b[0]);
    }
}

proof fn lemma_first_bytes()
    ensures
        "worktree ".spec_bytes().len() > 0,
        "worktree ".spec_bytes()[0] == 119,
        "branch refs/heads/".spec_bytes().len() > 0,
        "branch refs/heads/".spec_bytes()[0] == 98,
{
    reveal_strlit("worktree ");
    reveal_strlit("branch refs/heads/");
    assert(is_ascii_chars("worktree "@));
    assert(is_ascii_chars("branch refs/heads/"@));
    is_ascii_chars_encode_utf8("worktree "@);
    is_ascii_chars_encode_utf8("branch refs/heads/"@);
    assert("worktree "@[0] == 'w');
    assert("branch refs/heads/"@[0] == 'b');
}

/// What git prints of some checkouts reads back as those checkouts: each at its path and with its
/// branch, in their order, and none is left out.
pub proof fn lemma_printed_checkouts_read_back(worktrees: Seq<WorktreeV>)
    ensures
        porcelain_after(all_printed(worktrees)).closed() == worktrees,
        porcelain_after(all_printed(worktrees)).path is None,
        porcelain_after(all_printed(worktrees)).branch is None,
        !porcelain_after(all_printed(worktrees)).skipped,
    decreases worktrees.len(),
{
    if worktrees.len() > 0 {
        reveal_with_fuel(porcelain_after, 4);
        let before = worktrees.drop_last();
        let last = worktrees.last();
        let start = all_printed(before);
        lemma_printed_checkouts_read_back(before);
        let branch = match last.branch {
            Some(branch) => encode_utf8(branch),
            None => Seq::empty(),
        };
        lemma_keys_differ(last.path, branch);
        let place = "worktree ".spec_bytes() + last.path;
        let one = start.push(place);
        assert(one.drop_last() =~= start);
        let none = Seq::<u8>::empty();
        match last.branch {
            Some(name) => {
                encode_utf8_valid_utf8(name);
                encode_utf8_decode_utf8(name);
                let two = one.push("branch refs/heads/".spec_bytes() + branch);
                let three = two.push(none);
                assert(two.drop_last() =~= one);
                assert(three.drop_last() =~= two);
                assert(all_printed(worktrees) =~= three);
            },
            None => {
                let two = one.push(none);
                assert(two.drop_last() =~= one);
                assert(all_printed(worktrees) =~= two);
            },
        }
        assert(before.push(last) =~= worktrees);
    } else {
        assert(porcelain_after(all_printed(worktrees)).closed() =~= worktrees);
    }
}

/// Fields that are not known are passed over, and a branch whose name is no text leaves its
/// checkout without a branch, and that is told.
pub proof fn lemma_other_fields_are_passed_over(read: PorcelainV, field: Seq<u8>)
    requires
        !begins_with(field, "worktree ".spec_bytes()),
        field.len() > 0,
    ensures
        !begins_with(field, "branch refs/heads/".spec_bytes()) ==> read.after(field) == read,
        begins_with(field, "branch refs/heads/".spec_bytes()) && !valid_utf8(
            field.skip("branch refs/heads/".spec_bytes().len() as int),
        ) ==> read.after(field).branch is None && read.after(field).skipped && read.after(
            field,
        ).path == read.path,
{
}

/// The branches of a remote are the lines that start with its name, without it; a line that only
/// points to another one is none.
pub proof fn lemma_remote_branches_are_its_lines(lines: Seq<Seq<char>>, prefix: Seq<char>)
    ensures
        forall|k: int|
            0 <= k < remote_branches(lines, prefix).len() ==> exists|i: int|
                0 <= i < lines.len() && remote_branch(#[trigger] lines[i], prefix) == Some(
                    #[trigger] remote_branches(lines, prefix)[k],
                ),
        forall|i: int|
            0 <= i < lines.len() && remote_branch(#[trigger] lines[i], prefix) is Some
                ==> remote_branches(lines, prefix).contains(remote_branch(lines[i], prefix)->0),
    decreases lines.len(),
{
    if lines.len() > 0 {
        let before = lines.drop_last();
        lemma_remote_branches_are_its_lines(before, prefix);
        let inner = remote_branches(before, prefix);
        let all = remote_branches(lines, prefix);
        assert forall|i: int| 0 <= i < before.len() implies #[trigger] lines[i] == before[i] by {}
        assert forall|k: int| 0 <= k < all.len() implies exists|i: int|
            0 <= i < lines.len() && remote_branch(#[trigger] lines[i], prefix) == Some(
                #[trigger] all[k],
            ) by {
            if k < inner.len() {
                assert(all[k] == inner[k]);
                let i = choose|i: int|
                    0 <= i < before.len() && remote_branch(#[trigger] before[i], prefix) == Some(
                        inner[k],
                    );
                assert(remote_branch(lines[i], prefix) == Some(all[k]));
            } else {
                assert(remote_branch(lines[lines.len() - 1], prefix) == Some(all[k]));
            }
        }
        assert forall|i: int|
            0 <= i < lines.len() && remote_branch(#[trigger] lines[i], prefix)
                is Some implies all.contains(remote_branch(lines[i], prefix)->0) by {
            if i < before.len() {
                assert(remote_branch(before[i], prefix) is Some);
                let k = choose|k: int|
                    0 <= k < inner.len() && inner[k] == remote_branch(before[i], prefix)->0;
                assert(all[k] == inner[k]);
            } else {
                assert(all[all.len() - 1] == remote_branch(lines[i], prefix)->0);
            }
        }
    }
}

proof fn lemma_split_once(text: Seq<char>, mark: char)
    requires
        forall|i: int| 0 <= i < text.len() ==> text[i] != mark,
    ensures
        split_once(text, mark) == (text, Seq::<char>::empty()),
    decreases text.len(),
{
    if text.len() > 0 {
        lemma_split_once(text.drop_first(), mark);
        assert(seq![text[0]] + text.drop_first() =~= text);
    }
}

proof fn lemma_split_at(before: Seq<char>, after: Seq<char>, mark: char)
    requires
        forall|i: int| 0 <= i < before.len() ==> before[i] != mark,
    ensures
        split_once(before.push(mark) + after, mark) == (before, after),
    decreases before.len(),
{
    let text = before.push(mark) + after;
    if before.len() == 0 {
        assert(text.drop_first() =~= after);
        assert(before =~= Seq::<char>::empty());
    } else {
        let rest = before.drop_first();
        assert(text.drop_first() =~= rest.push(mark) + after);
        lemma_split_at(rest, after, mark);
        assert(seq![before[0]] + rest =~= before);
    }
}

/// A line that names a branch of a remote is that branch; one that points to another branch is
/// none, and so is a line of another remote.
pub proof fn lemma_line_names_a_remote_branch(
    prefix: Seq<char>,
    name: Seq<char>,
    target: Seq<char>,
)
    requires
        forall|i: int| 0 <= i < prefix.len() ==> prefix[i] != '\0',
        forall|i: int| 0 <= i < name.len() ==> name[i] != '\0',
    ensures
        remote_branch((prefix + name).push('\0'), prefix) == Some(name),
        remote_branch(prefix + name, prefix) == Some(name),
        target.len() > 0 ==> remote_branch((prefix + name).push('\0') + target, prefix) is None,
        !begins_with(name, prefix) ==> remote_branch(name, prefix) is None,
{
    let full = prefix + name;
    let none = Seq::<char>::empty();
    assert(full.take(prefix.len() as int) =~= prefix);
    assert(full.skip(prefix.len() as int) =~= name);
    lemma_split_once(full, '\0');
    lemma_split_once(name, '\0');
    lemma_split_at(full, none, '\0');
    assert(full.push('\0') + none =~= full.push('\0'));
    lemma_split_at(full, target, '\0');
}

/// Git is asked to use force exactly where force is wanted, and always for the checkout that is
/// meant, which is named last.
pub proof fn lemma_force_is_asked_for_where_wanted(worktree_path: Seq<u8>)
    ensures
        removal_line(worktree_path, false).len() == 3,
        removal_line(worktree_path, false).last() == worktree_path,
        removal_line(worktree_path, true).len() == 4,
        removal_line(worktree_path, true).last() == worktree_path,
        removal_line(worktree_path, true)[2] == encode_utf8("--force"@),
        removal_line(worktree_path, true).take(2) == removal_line(worktree_path, false).take(2),
{
    assert(removal_line(worktree_path, true).take(2) =~= removal_line(
        worktree_path,
        false,
    ).take(2));
}

/// A removal that git refuses because of changes asks for force where it had none, and never
/// where it had; a checkout that git no longer knows counts as removed only where it is gone.
pub proof fn lemma_refused_removals(
    success: bool,
    stderr: Seq<char>,
    force: bool,
    checkout_exists: bool,
    checkout: Seq<u8>,
)
    ensures
        ({
            let outcome = remove_outcome(success, stderr, force, checkout_exists, checkout);
            let unknown = occurs(stderr, "is not a working tree"@);
            &&& success ==> outcome is Removed
            &&& outcome is DirtyRequiresForce ==> !success && !force && says_dirty(stderr)
            &&& !success && !unknown && !force && says_dirty(stderr) ==> outcome
                is DirtyRequiresForce
            &&& outcome is Removed && !success ==> unknown && !checkout_exists
            &&& !success && unknown && !checkout_exists ==> outcome is Removed
        }),
{
}

/// The default branch is the one that the remote points to; else `main`, or else `master`, where
/// there is such a branch.
pub proof fn lemma_default_branch_is_found_in_order(
    origin_head: Option<Seq<u8>>,
    local_branches: Seq<Seq<char>>,
    name: Seq<char>,
)
    ensures
        origin_head is Some && trimmed(lossy_text(origin_head->0)) == "refs/remotes/origin/"@ + name
            ==> default_branch_of(origin_head, local_branches) == Some(name),
        origin_head is None && local_branches.contains("main"@) ==> default_branch_of(
            origin_head,
            local_branches,
        ) == Some("main"@),
        origin_head is None && !local_branches.contains("main"@) && local_branches.contains(
            "master"@,
        ) ==> default_branch_of(origin_head, local_branches) == Some("master"@),
        origin_head is None && !local_branches.contains("main"@) && !local_branches.contains(
            "master"@,
        ) ==> default_branch_of(origin_head, local_branches) is None,
{
    let prefix = "refs/remotes/origin/"@;
    let full = prefix + name;
    assert(full.take(prefix.len() as int) =~= prefix);
    assert(full.skip(prefix.len() as int) =~= name);
}

/// A fetch that has ended is read, one that cannot be watched is given up, and one that runs is
/// waited for until its time is over, and no longer.
pub proof fn lemma_fetch_is_waited_for_in_time(elapsed: u64, timeout: u64)
    ensures
        poll_step(ChildState::Exited, elapsed, timeout) is ReadResult,
        poll_step(ChildState::Lost, elapsed, timeout) is GiveUp,
        match poll_step(ChildState::Running, elapsed, timeout) {
            PollStep::TimeOut => elapsed >= timeout,
            PollStep::Sleep(wait) => elapsed < timeout && 0 < wait && elapsed + wait <= timeout,
            _ => false,
        },
{
}

} // verus!
