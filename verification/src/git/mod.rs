//! Repositories and what git prints about them.

use crate::path::PathBuf;
use crate::text::{begins_with, bytes_equal, decode, split_bytes, pieces};
use vstd::prelude::*;
use vstd::string::*;
use vstd::utf8::{decode_utf8, valid_utf8};

pub mod cli;
pub mod command;
pub mod provider;
pub mod repo;
pub mod scan;

pub use crate::git::provider::{is_dirty_worktree_requires_force, is_local_branch_already_exists, DirtyWorktreeRequiresForce, GitError, GitErrorV, LocalBranchAlreadyExists};
pub use crate::git::repo::{Repo, RepoV, ScanWarning, Worktree, WorktreeV};

verus! {

/// What a listing found, and whether it had to leave out refs whose names are no text.
#[derive(Debug, PartialEq, Eq)]
pub struct Listed<T> {
    pub items: Vec<T>,
    pub skipped_unsupported_refs: bool,
}

impl<T> Listed<T> {
    pub(crate) fn new(items: Vec<T>, skipped_unsupported_refs: bool) -> (listed: Self)
        ensures
            listed.items == items,
            listed.skipped_unsupported_refs == skipped_unsupported_refs,
    {
        Listed { items, skipped_unsupported_refs }
    }
}

pub const UNSUPPORTED_REF_WARNING: &'static str =
    "Some Git refs were skipped because non-UTF-8 ref names are unsupported.";

/// Progress through a porcelain listing: the finished worktrees, and what the open record
/// said so far.
pub struct PorcelainV {
    pub worktrees: Seq<WorktreeV>,
    pub path: Option<Seq<u8>>,
    pub branch: Option<Seq<char>>,
    pub skipped: bool,
}

impl PorcelainV {
    pub open spec fn empty() -> PorcelainV {
        PorcelainV { worktrees: Seq::empty(), path: None, branch: None, skipped: false }
    }

    /// The open record, if it named a path, added to the finished ones.
    pub open spec fn closed(self) -> Seq<WorktreeV> {
        match self.path {
            Some(path) => self.worktrees.push(WorktreeV { path, branch: self.branch }),
            None => self.worktrees,
        }
    }

    /// One more field of the listing. `worktree` opens a record, `branch` names the branch
    /// that is checked out, an empty field ends the record; any other field says nothing
    /// here.
    pub open spec fn after(self, field: Seq<u8>) -> PorcelainV {
        let path_key = "worktree ".spec_bytes();
        let branch_key = "branch refs/heads/".spec_bytes();
        if begins_with(field, path_key) {
            PorcelainV {
                worktrees: self.closed(),
                path: Some(field.skip(path_key.len() as int)),
                branch: if self.path is Some {
                    None
                } else {
                    self.branch
                },
                skipped: self.skipped,
            }
        } else if begins_with(field, branch_key) {
            let name = field.skip(branch_key.len() as int);
            if valid_utf8(name) {
                PorcelainV { branch: Some(decode_utf8(name)), ..self }
            } else {
                PorcelainV { branch: None, skipped: true, ..self }
            }
        } else if field.len() == 0 {
            PorcelainV {
                worktrees: self.closed(),
                path: None,
                branch: None,
                skipped: self.skipped,
            }
        } else {
            self
        }
    }
}

/// Progress after the given fields.
pub open spec fn porcelain_after(fields: Seq<Seq<u8>>) -> PorcelainV
    decreases fields.len(),
{
    if fields.len() == 0 {
        PorcelainV::empty()
    } else {
        porcelain_after(fields.drop_last()).after(fields.last())
    }
}

/// What a `git worktree list --porcelain -z` listing says.
pub open spec fn porcelain(output: Seq<u8>) -> PorcelainV {
    porcelain_after(pieces(output, 0u8))
}

fn rest_after(bytes: &Vec<u8>, prefix: &[u8]) -> (rest: Option<Vec<u8>>)
    ensures
        match rest {
            Some(value) => begins_with(bytes@, prefix@) && value@ == bytes@.skip(
                prefix@.len() as int,
            ),
            None => !begins_with(bytes@, prefix@),
        },
{
    let count: usize = prefix.len();
    if count > bytes.len() {
        return None;
    }
    let head = vstd::slice::slice_subrange(bytes.as_slice(), 0, count);
    assert(head@ =~= bytes@.take(count as int));
    if !bytes_equal(head, prefix) {
        return None;
    }
    let tail = vstd::slice::slice_subrange(bytes.as_slice(), count, bytes.len());
    let path = PathBuf::from_bytes(tail);
    assert(path@ =~= bytes@.skip(count as int));
    Some(path.bytes)
}

fn close_record(
    worktrees: &mut Vec<Worktree>,
    path: Option<PathBuf>,
    branch: Option<String>,
)
    ensures
        final(worktrees).deep_view() == (PorcelainV {
            worktrees: old(worktrees).deep_view(),
            path: path.deep_view(),
            branch: branch.deep_view(),
            skipped: false,
        }).closed(),
{
    match path {
        Some(path) => {
            let ghost before = worktrees.deep_view();
            let worktree = Worktree { path, branch };
            let ghost added = worktree.deep_view();
            worktrees.push(worktree);
            assert(worktrees.deep_view() =~= before.push(added));
        },
        None => {},
    }
}

/// Parse `git worktree list --porcelain -z` output into worktrees.
#[verifier::loop_isolation(false)]
pub fn parse_worktree_porcelain(output: &[u8]) -> (listed: Listed<Worktree>)
    ensures
        listed.items.deep_view() == porcelain(output@).closed(),
        listed.skipped_unsupported_refs == porcelain(output@).skipped,
{
    let mut worktrees: Vec<Worktree> = Vec::new();
    let mut current_path: Option<PathBuf> = None;
    let mut current_branch: Option<String> = None;
    let mut skipped = false;
    let fields = split_bytes(output, 0);
    let ghost all = pieces(output@, 0u8);
    assert(worktrees.deep_view() =~= Seq::<WorktreeV>::empty());
    let mut i: usize = 0;
    while i < fields.len()
        invariant
            i <= fields.len(),
            (PorcelainV {
                worktrees: worktrees.deep_view(),
                path: current_path.deep_view(),
                branch: current_branch.deep_view(),
                skipped,
            }) == porcelain_after(all.take(i as int)),
        decreases fields.len() - i,
    {
        let field: &Vec<u8> = &fields[i];
        let ghost before = porcelain_after(all.take(i as int));
        proof {
            assert(all[i as int] =~= field@);
            assert(all.take(i + 1).drop_last() =~= all.take(i as int));
            assert(all.take(i + 1).last() == field@);
        }
        i = i + 1;
        if let Some(path) = rest_after(field, "worktree ".as_bytes()) {
            let previous = current_path;
            let branch = if previous.is_some() {
                current_branch.take()
            } else {
                None
            };
            close_record(&mut worktrees, previous, branch);
            current_path = Some(PathBuf { bytes: path });
        } else if let Some(name) = rest_after(field, "branch refs/heads/".as_bytes()) {
            match decode(name.as_slice()) {
                Some(branch) => {
                    current_branch = Some(branch);
                },
                None => {
                    current_branch = None;
                    skipped = true;
                },
            }
        } else if field.len() == 0 {
            let path = current_path;
            let branch = current_branch;
            current_path = None;
            current_branch = None;
            close_record(&mut worktrees, path, branch);
        }
    }
    assert(all.take(all.len() as int) =~= all);
    close_record(&mut worktrees, current_path, current_branch);
    Listed::new(worktrees, skipped)
}

} // verus!
