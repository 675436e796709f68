//! Checkouts whose removal was started, kept so that it can be taken up again.

use crate::config::ConfigWarning;
use crate::path::{equal_paths, same_path, PathBuf, PathRules};
use crate::state_store::{file_problem, read_entries, usable_entries, SavedFile};
use crate::text::same_text;
use vstd::prelude::*;

verus! {

pub const STATE_VERSION: u32 = 1;

/// How long a removal is taken up again, in seconds.
pub const TTL_SECS: u64 = 86400;

#[derive(Debug, PartialEq, Eq)]
pub struct PendingWorktreeDelete {
    pub repo_path: PathBuf,
    pub branch_name: String,
    pub worktree_path: PathBuf,
    pub force: bool,
    pub started_at_unix_secs: u64,
}

pub struct PendingWorktreeDeleteV {
    pub repo_path: Seq<u8>,
    pub branch_name: Seq<char>,
    pub worktree_path: Seq<u8>,
    pub force: bool,
    pub started_at_unix_secs: u64,
}

impl DeepView for PendingWorktreeDelete {
    type V = PendingWorktreeDeleteV;

    open spec fn deep_view(&self) -> PendingWorktreeDeleteV {
        PendingWorktreeDeleteV {
            repo_path: self.repo_path@,
            branch_name: self.branch_name@,
            worktree_path: self.worktree_path@,
            force: self.force,
            started_at_unix_secs: self.started_at_unix_secs,
        }
    }
}

impl Clone for PendingWorktreeDelete {
    fn clone(&self) -> (pending: Self)
        ensures
            pending.deep_view() == self.deep_view(),
    {
        PendingWorktreeDelete {
            repo_path: self.repo_path.clone(),
            branch_name: self.branch_name.clone(),
            worktree_path: self.worktree_path.clone(),
            force: self.force,
            started_at_unix_secs: self.started_at_unix_secs,
        }
    }
}

impl PendingWorktreeDeleteV {
    /// Whether the removal was started too long ago; a start in the future is not.
    pub open spec fn expired(self, now: u64) -> bool {
        now - self.started_at_unix_secs > TTL_SECS
    }
}

impl PendingWorktreeDelete {
    /// A removal that starts now.
    pub fn new(repo_path: PathBuf, branch_name: String, worktree_path: PathBuf, now: u64) -> (pending:
        PendingWorktreeDelete)
        ensures
            pending.deep_view() == (PendingWorktreeDeleteV {
                repo_path: repo_path@,
                branch_name: branch_name@,
                worktree_path: worktree_path@,
                force: false,
                started_at_unix_secs: now,
            }),
    {
        PendingWorktreeDelete {
            repo_path,
            branch_name,
            worktree_path,
            force: false,
            started_at_unix_secs: now,
        }
    }

    pub fn is_expired(&self, now: u64) -> (answer: bool)
        ensures
            answer == self.deep_view().expired(now),
    {
        now > self.started_at_unix_secs && now - self.started_at_unix_secs > TTL_SECS
    }
}

/// The removals that are not expired.
pub open spec fn still_pending(entries: Seq<PendingWorktreeDeleteV>, now: u64) -> Seq<
    PendingWorktreeDeleteV,
>
    decreases entries.len(),
{
    if entries.len() == 0 {
        entries
    } else {
        let before = still_pending(entries.drop_last(), now);
        if entries.last().expired(now) {
            before
        } else {
            before.push(entries.last())
        }
    }
}

#[verifier::loop_isolation(false)]
fn keep_pending(entries: Vec<PendingWorktreeDelete>, now: u64) -> (kept: Vec<PendingWorktreeDelete>)
    ensures
        kept.deep_view() == still_pending(entries.deep_view(), now),
{
    let ghost all = entries.deep_view();
    let mut kept: Vec<PendingWorktreeDelete> = Vec::new();
    let mut i: usize = 0;
    assert(kept.deep_view() =~= still_pending(all.take(0), now));
    while i < entries.len()
        invariant
            i <= entries.len(),
            kept.deep_view() == still_pending(all.take(i as int), now),
        decreases entries.len() - i,
    {
        let ghost before = kept.deep_view();
        proof {
            assert(all.take(i + 1).drop_last() =~= all.take(i as int));
            assert(all.take(i + 1).last() == entries@[i as int].deep_view());
        }
        if !entries[i].is_expired(now) {
            let entry = entries[i].clone();
            let ghost added = entry.deep_view();
            kept.push(entry);
            assert(kept.deep_view() =~= before.push(added));
        }
        i = i + 1;
    }
    assert(all.take(all.len() as int) =~= all);
    kept
}

/// The removals that were read, and what went wrong.
#[derive(Debug, PartialEq, Eq)]
pub struct PendingDeleteLoad {
    pub entries: Vec<PendingWorktreeDelete>,
    pub warnings: Vec<ConfigWarning>,
}

/// The removals to take up again from a saved file, and what is wrong with the file: a file
/// that is missing or wrong resumes nothing.
pub fn pending_from_file(file: SavedFile<PendingWorktreeDelete>, now: u64) -> (loaded: (
    Vec<PendingWorktreeDelete>,
    Option<String>,
))
    ensures
        loaded.1.deep_view() == file_problem(file, "is malformed: "@, STATE_VERSION as nat),
        loaded.0.deep_view() == match usable_entries(
            file,
            "is malformed: "@,
            STATE_VERSION as nat,
        ) {
            Some(entries) => still_pending(entries, now),
            None => Seq::empty(),
        },
{
    let (entries, problem) = read_entries(file, "is malformed: ", STATE_VERSION);
    match entries {
        Some(entries) => (keep_pending(entries, now), problem),
        None => {
            let none: Vec<PendingWorktreeDelete> = Vec::new();
            assert(none.deep_view() =~= Seq::empty());
            (none, problem)
        },
    }
}

/// Whether an entry is the removal of a branch of a repository.
pub open spec fn is_removal_of(
    entry: PendingWorktreeDeleteV,
    repo_path: Seq<u8>,
    branch_name: Seq<char>,
    rules: PathRules,
) -> bool {
    same_path(entry.repo_path, repo_path, rules) && entry.branch_name == branch_name
}

/// The removals but those of a branch.
pub open spec fn without_branch(
    entries: Seq<PendingWorktreeDeleteV>,
    repo_path: Seq<u8>,
    branch_name: Seq<char>,
    rules: PathRules,
) -> Seq<PendingWorktreeDeleteV>
    decreases entries.len(),
{
    if entries.len() == 0 {
        entries
    } else {
        let before = without_branch(entries.drop_last(), repo_path, branch_name, rules);
        if is_removal_of(entries.last(), repo_path, branch_name, rules) {
            before
        } else {
            before.push(entries.last())
        }
    }
}

/// The removals after one more was started, which replaces an earlier one of its branch.
pub open spec fn marked(
    entries: Seq<PendingWorktreeDeleteV>,
    pending: PendingWorktreeDeleteV,
    rules: PathRules,
) -> Seq<PendingWorktreeDeleteV> {
    without_branch(entries, pending.repo_path, pending.branch_name, rules).push(pending)
}

/// The removals but those of a checkout.
pub open spec fn cleared(entries: Seq<PendingWorktreeDeleteV>, worktree_path: Seq<u8>, rules: PathRules) -> Seq<
    PendingWorktreeDeleteV,
>
    decreases entries.len(),
{
    if entries.len() == 0 {
        entries
    } else {
        let before = cleared(entries.drop_last(), worktree_path, rules);
        if same_path(entries.last().worktree_path, worktree_path, rules) {
            before
        } else {
            before.push(entries.last())
        }
    }
}

#[verifier::loop_isolation(false)]
pub fn mark(entries: &mut Vec<PendingWorktreeDelete>, pending: PendingWorktreeDelete, rules: PathRules)
    ensures
        final(entries).deep_view() == marked(old(entries).deep_view(), pending.deep_view(), rules),
{
    let ghost all = entries.deep_view();
    let mut kept: Vec<PendingWorktreeDelete> = Vec::new();
    let mut i: usize = 0;
    assert(kept.deep_view() =~= without_branch(
        all.take(0),
        pending.repo_path@,
        pending.branch_name@,
        rules,
    ));
    while i < entries.len()
        invariant
            i <= entries.len(),
            entries.deep_view() == all,
            kept.deep_view() == without_branch(
                all.take(i as int),
                pending.repo_path@,
                pending.branch_name@,
                rules,
            ),
        decreases entries.len() - i,
    {
        let ghost before = kept.deep_view();
        proof {
            assert(all.take(i + 1).drop_last() =~= all.take(i as int));
            assert(all.take(i + 1).last() == entries@[i as int].deep_view());
        }
        if !(equal_paths(&entries[i].repo_path, &pending.repo_path, rules) && same_text(
            entries[i].branch_name.as_str(),
            pending.branch_name.as_str(),
        )) {
            let entry = entries[i].clone();
            let ghost added = entry.deep_view();
            kept.push(entry);
            assert(kept.deep_view() =~= before.push(added));
        }
        i = i + 1;
    }
    assert(all.take(all.len() as int) =~= all);
    let ghost before = kept.deep_view();
    let ghost added = pending.deep_view();
    kept.push(pending);
    assert(kept.deep_view() =~= before.push(added));
    *entries = kept;
}

#[verifier::loop_isolation(false)]
pub fn clear(entries: &mut Vec<PendingWorktreeDelete>, worktree_path: &PathBuf, rules: PathRules)
    ensures
        final(entries).deep_view() == cleared(old(entries).deep_view(), worktree_path@, rules),
{
    let ghost all = entries.deep_view();
    let mut kept: Vec<PendingWorktreeDelete> = Vec::new();
    let mut i: usize = 0;
    assert(kept.deep_view() =~= cleared(all.take(0), worktree_path@, rules));
    while i < entries.len()
        invariant
            i <= entries.len(),
            entries.deep_view() == all,
            kept.deep_view() == cleared(all.take(i as int), worktree_path@, rules),
        decreases entries.len() - i,
    {
        let ghost before = kept.deep_view();
        proof {
            assert(all.take(i + 1).drop_last() =~= all.take(i as int));
            assert(all.take(i + 1).last() == entries@[i as int].deep_view());
        }
        if !equal_paths(&entries[i].worktree_path, worktree_path, rules) {
            let entry = entries[i].clone();
            let ghost added = entry.deep_view();
            kept.push(entry);
            assert(kept.deep_view() =~= before.push(added));
        }
        i = i + 1;
    }
    assert(all.take(all.len() as int) =~= all);
    *entries = kept;
}

/// A removal that was marked is found again, and one that was cleared is not.
pub proof fn lemma_cleared_is_gone(entries: Seq<PendingWorktreeDeleteV>, worktree_path: Seq<u8>, rules: PathRules)
    ensures
        forall|i: int|
            0 <= i < cleared(entries, worktree_path, rules).len() ==> !same_path(
                (#[trigger] cleared(entries, worktree_path, rules)[i]).worktree_path,
                worktree_path,
                rules,
            ),
        cleared(entries, worktree_path, rules).len() <= entries.len(),
    decreases entries.len(),
{
    if entries.len() > 0 {
        lemma_cleared_is_gone(entries.drop_last(), worktree_path, rules);
        let inner = cleared(entries.drop_last(), worktree_path, rules);
        let out = cleared(entries, worktree_path, rules);
        assert forall|i: int| 0 <= i < out.len() implies !same_path(
            (#[trigger] out[i]).worktree_path,
            worktree_path,
            rules,
        ) by {
            if i < inner.len() {
                assert(out[i] == inner[i]);
            }
        }
    }
}

/// A branch has at most one removal under way: marking one leaves no other of its branch.
pub proof fn lemma_marked_once(
    entries: Seq<PendingWorktreeDeleteV>,
    pending: PendingWorktreeDeleteV,
    rules: PathRules,
)
    ensures
        marked(entries, pending, rules).last() == pending,
        forall|i: int|
            0 <= i < marked(entries, pending, rules).len() - 1 ==> !is_removal_of(
                #[trigger] marked(entries, pending, rules)[i],
                pending.repo_path,
                pending.branch_name,
                rules,
            ),
{
    lemma_without_branch(entries, pending.repo_path, pending.branch_name, rules);
    let kept = without_branch(entries, pending.repo_path, pending.branch_name, rules);
    let out = marked(entries, pending, rules);
    assert forall|i: int| 0 <= i < out.len() - 1 implies !is_removal_of(
        #[trigger] out[i],
        pending.repo_path,
        pending.branch_name,
        rules,
    ) by {
        assert(out[i] == kept[i]);
    }
}

proof fn lemma_without_branch(
    entries: Seq<PendingWorktreeDeleteV>,
    repo_path: Seq<u8>,
    branch_name: Seq<char>,
    rules: PathRules,
)
    ensures
        forall|i: int|
            0 <= i < without_branch(entries, repo_path, branch_name, rules).len() ==> !is_removal_of(
                #[trigger] without_branch(entries, repo_path, branch_name, rules)[i],
                repo_path,
                branch_name,
                rules,
            ),
    decreases entries.len(),
{
    if entries.len() > 0 {
        lemma_without_branch(entries.drop_last(), repo_path, branch_name, rules);
        let inner = without_branch(entries.drop_last(), repo_path, branch_name, rules);
        let out = without_branch(entries, repo_path, branch_name, rules);
        assert forall|i: int| 0 <= i < out.len() implies !is_removal_of(
            #[trigger] out[i],
            repo_path,
            branch_name,
            rules,
        ) by {
            if i < inner.len() {
                assert(out[i] == inner[i]);
            }
        }
    }
}

/// Removals that were saved and have not expired are read back as they were.
pub proof fn lemma_running_removals_read_back(entries: Seq<PendingWorktreeDeleteV>, now: u64)
    requires
        forall|i: int| 0 <= i < entries.len() ==> !(#[trigger] entries[i]).expired(now),
    ensures
        still_pending(entries, now) == entries,
    decreases entries.len(),
{
    if entries.len() > 0 {
        let before = entries.drop_last();
        assert forall|i: int| 0 <= i < before.len() implies !(#[trigger] before[i]).expired(now) by {
            assert(!entries[i].expired(now));
        }
        lemma_running_removals_read_back(before, now);
        assert(!entries[entries.len() - 1].expired(now));
        assert(before.push(entries.last()) =~= entries);
    }
}

} // verus!
