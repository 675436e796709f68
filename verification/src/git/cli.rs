//! Decisions on what the git command line prints and on the files it leaves behind.

use crate::git::provider::{GitError, LocalBranchAlreadyExists};
use crate::git::repo::Worktree;
use crate::git::{Listed, Repo, RepoV};
use crate::path::{is_parent_end, joined_path, parts, PathBuf, PathPart, PathRules};
use crate::text::{begins_with, bytes_equal, chars_of, concat, concat3, contains, decode, decode_lossy, join, joined, lossy_text, occurs, owned, pieces, same_text, slice_of, split_bytes, split_chars, strip_prefix, text_of, trim, trim_chars, trimmed};
use vstd::prelude::*;
use vstd::string::*;
use vstd::utf8::{decode_utf8, valid_utf8};

verus! {

/// The trimmed lines that are text and not blank.
pub open spec fn text_lines(split: Seq<Seq<u8>>) -> Seq<Seq<char>>
    decreases split.len(),
{
    if split.len() == 0 {
        Seq::empty()
    } else {
        let before = text_lines(split.drop_last());
        let line = split.last();
        if valid_utf8(line) && trimmed(decode_utf8(line)).len() > 0 {
            before.push(trimmed(decode_utf8(line)))
        } else {
            before
        }
    }
}

/// Whether some line is no text.
pub open spec fn has_foreign_line(split: Seq<Seq<u8>>) -> bool {
    exists|i: int| 0 <= i < split.len() && !valid_utf8(#[trigger] split[i])
}

/// The names in a listing with one name to a line; lines that are no text are left out.
#[verifier::loop_isolation(false)]
pub fn utf8_lines(bytes: &[u8]) -> (listed: Listed<String>)
    ensures
        listed.items.deep_view() == text_lines(pieces(bytes@, 10u8)),
        listed.skipped_unsupported_refs == has_foreign_line(pieces(bytes@, 10u8)),
{
    let mut items: Vec<String> = Vec::new();
    let mut skipped = false;
    let lines = split_bytes(bytes, 10);
    let ghost all = pieces(bytes@, 10u8);
    assert(items.deep_view() =~= text_lines(all.take(0)));
    let mut i: usize = 0;
    while i < lines.len()
        invariant
            i <= lines.len(),
            items.deep_view() == text_lines(all.take(i as int)),
            skipped == has_foreign_line(all.take(i as int)),
        decreases lines.len() - i,
    {
        let line: &Vec<u8> = &lines[i];
        let ghost before = items.deep_view();
        proof {
            assert(all[i as int] =~= line@);
            assert(all.take(i + 1).drop_last() =~= all.take(i as int));
            assert(all.take(i + 1).last() == line@);
            assert forall|k: int| 0 <= k < i implies all.take(i + 1)[k] == all.take(i as int)[k] by {}
            if has_foreign_line(all.take(i as int)) {
                let k = choose|k: int|
                    0 <= k < all.take(i as int).len() && !valid_utf8(
                        #[trigger] all.take(i as int)[k],
                    );
                assert(!valid_utf8(all.take(i + 1)[k]));
            }
            if has_foreign_line(all.take(i + 1)) {
                let k = choose|k: int|
                    0 <= k < all.take(i + 1).len() && !valid_utf8(#[trigger] all.take(i + 1)[k]);
                if k < i {
                    assert(!valid_utf8(all.take(i as int)[k]));
                }
            }
        }
        match decode(line.as_slice()) {
            Some(text) => {
                let name = trim(text.as_str());
                if !name.as_str().is_empty() {
                    let ghost added = name@;
                    items.push(name);
                    assert(items.deep_view() =~= before.push(added));
                }
            },
            None => {
                assert(!valid_utf8(all.take(i + 1)[i as int]));
                skipped = true;
            },
        }
        i = i + 1;
    }
    assert(all.take(all.len() as int) =~= all);
    Listed::new(items, skipped)
}

/// The trimmed lines that are not blank.
pub open spec fn filled_lines(split: Seq<Seq<char>>) -> Seq<Seq<char>>
    decreases split.len(),
{
    if split.len() == 0 {
        Seq::empty()
    } else {
        let before = filled_lines(split.drop_last());
        if trimmed(split.last()).len() > 0 {
            before.push(trimmed(split.last()))
        } else {
            before
        }
    }
}

/// The names in a listing with one name to a line; bytes that are no text are replaced.
#[verifier::loop_isolation(false)]
pub fn lines(bytes: &[u8]) -> (names: Vec<String>)
    ensures
        names.deep_view() == filled_lines(pieces(lossy_text(bytes@), '\n')),
{
    let text = decode_lossy(bytes);
    let chars = chars_of(text.as_str());
    let split = split_chars(&chars, '\n');
    let ghost all = pieces(lossy_text(bytes@), '\n');
    let mut names: Vec<String> = Vec::new();
    assert(names.deep_view() =~= filled_lines(all.take(0)));
    let mut i: usize = 0;
    while i < split.len()
        invariant
            i <= split.len(),
            names.deep_view() == filled_lines(all.take(i as int)),
        decreases split.len() - i,
    {
        let line: &Vec<char> = &split[i];
        let ghost before = names.deep_view();
        proof {
            assert(all[i as int] =~= line@);
            assert(all.take(i + 1).drop_last() =~= all.take(i as int));
            assert(all.take(i + 1).last() == line@);
        }
        let kept = trim_chars(line);
        if kept.len() > 0 {
            let name = text_of(&kept);
            let ghost added = name@;
            names.push(name);
            assert(names.deep_view() =~= before.push(added));
        }
        i = i + 1;
    }
    assert(all.take(all.len() as int) =~= all);
    names
}

/// What stands before the first `mark`, and what behind it: all of the text and nothing
/// where there is none.
pub open spec fn split_once(text: Seq<char>, mark: char) -> (Seq<char>, Seq<char>)
    decreases text.len(),
{
    if text.len() == 0 {
        (text, Seq::empty())
    } else if text[0] == mark {
        (Seq::empty(), text.drop_first())
    } else {
        let (before, after) = split_once(text.drop_first(), mark);
        (seq![text[0]] + before, after)
    }
}

proof fn lemma_split_once(text: Seq<char>, mark: char, at: int)
    requires
        0 <= at <= text.len(),
        forall|i: int| 0 <= i < at ==> text[i] != mark,
        at < text.len() ==> text[at] == mark,
    ensures
        split_once(text, mark) == if at < text.len() {
            (text.take(at), text.skip(at + 1))
        } else {
            (text, Seq::empty())
        },
    decreases text.len(),
{
    if text.len() > 0 && at > 0 {
        assert(text[0] != mark);
        let rest = text.drop_first();
        assert forall|i: int| 0 <= i < at - 1 implies rest[i] != mark by {
            assert(text[i + 1] != mark);
        }
        lemma_split_once(rest, mark, at - 1);
        if at < text.len() {
            assert(seq![text[0]] + rest.take(at - 1) =~= text.take(at));
            assert(rest.skip(at - 1 + 1) =~= text.skip(at + 1));
        } else {
            assert(seq![text[0]] + rest =~= text);
        }
    } else if text.len() > 0 {
        assert(text.take(0) =~= Seq::<char>::empty());
        assert(text.skip(1) =~= text.drop_first());
    }
}

/// The branch that a line of the remote listing names, below `prefix` and not symbolic.
pub open spec fn remote_branch(line: Seq<char>, prefix: Seq<char>) -> Option<Seq<char>> {
    let (refname, symref) = split_once(line, '\0');
    if symref.len() == 0 && begins_with(refname, prefix) {
        Some(refname.skip(prefix.len() as int))
    } else {
        None
    }
}

pub open spec fn remote_branches(lines: Seq<Seq<char>>, prefix: Seq<char>) -> Seq<Seq<char>>
    decreases lines.len(),
{
    if lines.len() == 0 {
        Seq::empty()
    } else {
        let before = remote_branches(lines.drop_last(), prefix);
        match remote_branch(lines.last(), prefix) {
            Some(name) => before.push(name),
            None => before,
        }
    }
}

fn parse_remote_line(line: &str, prefix: &str) -> (name: Option<String>)
    ensures
        name.deep_view() == remote_branch(line@, prefix@),
{
    let chars = chars_of(line);
    let mut at: usize = 0;
    while at < chars.len() && chars[at] != '\0'
        invariant
            at <= chars.len(),
            forall|i: int| 0 <= i < at ==> chars@[i] != '\0',
        decreases chars.len() - at,
    {
        at = at + 1;
    }
    proof {
        lemma_split_once(chars@, '\0', at as int);
        assert(chars@.subrange(0, at as int) =~= chars@.take(at as int));
        assert(at == chars.len() ==> chars@.take(at as int) =~= chars@);
    }
    if at < chars.len() && at + 1 < chars.len() {
        assert(chars@.skip(at + 1).len() > 0);
        return None;
    }
    let refname = text_of(slice_of(&chars, 0, at));
    strip_prefix(refname.as_str(), prefix)
}

/// The branches of one remote in a `for-each-ref` listing of names and symbolic targets;
/// symbolic refs and the refs of other remotes are left out.
#[verifier::loop_isolation(false)]
pub fn parse_remote_branches_for_remote(bytes: &[u8], remote: &str) -> (listed: Listed<String>)
    ensures
        listed.items.deep_view() == remote_branches(
            text_lines(pieces(bytes@, 10u8)),
            remote@.push('/'),
        ),
        listed.skipped_unsupported_refs == has_foreign_line(pieces(bytes@, 10u8)),
{
    let mut prefix = owned(remote);
    prefix.push('/');
    let found = utf8_lines(bytes);
    let ghost all = found.items.deep_view();
    let mut items: Vec<String> = Vec::new();
    assert(items.deep_view() =~= remote_branches(all.take(0), prefix@));
    let mut i: usize = 0;
    while i < found.items.len()
        invariant
            i <= found.items.len(),
            items.deep_view() == remote_branches(all.take(i as int), prefix@),
        decreases found.items.len() - i,
    {
        let ghost before = items.deep_view();
        proof {
            assert(all.take(i + 1).drop_last() =~= all.take(i as int));
            assert(all.take(i + 1).last() == found.items@[i as int]@);
        }
        match parse_remote_line(found.items[i].as_str(), prefix.as_str()) {
            Some(name) => {
                let ghost added = name@;
                items.push(name);
                assert(items.deep_view() =~= before.push(added));
            },
            None => {},
        }
        i = i + 1;
    }
    assert(all.take(all.len() as int) =~= all);
    Listed::new(items, found.skipped_unsupported_refs)
}

/// Whether git says that a branch exists already.
pub open spec fn already_exists(stderr: Seq<char>, branch: Seq<char>) -> bool {
    occurs(stderr, "a branch named '"@ + branch + "' already exists"@)
}

/// Whether git refused to create a tracking branch because the branch exists.
pub fn tracking_branch_already_exists(stderr: &str, branch: &str) -> (answer: bool)
    ensures
        answer == already_exists(stderr@, branch@),
{
    let phrase = concat3("a branch named '", branch, "' already exists");
    contains(stderr, phrase.as_str())
}

pub open spec fn says_dirty(stderr: Seq<char>) -> bool {
    ||| occurs(stderr, "contains modified or untracked files"@)
    ||| occurs(stderr, "contains modified files"@)
    ||| occurs(stderr, "contains untracked files"@)
}

/// Whether git refused to remove a checkout because it holds changes.
pub fn dirty_worktree_refusal(stderr: &str) -> (answer: bool)
    ensures
        answer == says_dirty(stderr@),
{
    contains(stderr, "contains modified or untracked files") || contains(
        stderr,
        "contains modified files",
    ) || contains(stderr, "contains untracked files")
}

/// How an attempt to remove a checkout ended.
#[derive(Debug, PartialEq, Eq)]
pub enum RemoveOutcome {
    Removed,
    DirtyRequiresForce,
    Failed(String),
}

pub enum RemoveOutcomeV {
    Removed,
    DirtyRequiresForce,
    Failed(Seq<char>),
}

impl DeepView for RemoveOutcome {
    type V = RemoveOutcomeV;

    open spec fn deep_view(&self) -> RemoveOutcomeV {
        match self {
            RemoveOutcome::Removed => RemoveOutcomeV::Removed,
            RemoveOutcome::DirtyRequiresForce => RemoveOutcomeV::DirtyRequiresForce,
            RemoveOutcome::Failed(message) => RemoveOutcomeV::Failed(message@),
        }
    }
}

/// How `git worktree remove` ended: a checkout that git does not know counts as removed
/// where nothing is left of it, and is kept where something is.
pub open spec fn remove_outcome(
    success: bool,
    stderr: Seq<char>,
    force: bool,
    checkout_exists: bool,
    checkout: Seq<u8>,
) -> RemoveOutcomeV {
    if success {
        RemoveOutcomeV::Removed
    } else if occurs(stderr, "is not a working tree"@) {
        if checkout_exists {
            RemoveOutcomeV::Failed(
                "git no longer tracks this checkout; not deleting "@ + lossy_text(checkout),
            )
        } else {
            RemoveOutcomeV::Removed
        }
    } else if !force && says_dirty(stderr) {
        RemoveOutcomeV::DirtyRequiresForce
    } else {
        RemoveOutcomeV::Failed("git worktree remove failed: "@ + trimmed(stderr))
    }
}

/// Reads the result of `git worktree remove`.
pub fn worktree_remove_outcome(
    success: bool,
    stderr: &str,
    force: bool,
    checkout_exists: bool,
    checkout: &PathBuf,
) -> (outcome: RemoveOutcome)
    ensures
        outcome.deep_view() == remove_outcome(success, stderr@, force, checkout_exists, checkout@),
{
    if success {
        return RemoveOutcome::Removed;
    }
    if contains(stderr, "is not a working tree") {
        if !checkout_exists {
            return RemoveOutcome::Removed;
        }
        let shown = decode_lossy(checkout.bytes.as_slice());
        return RemoveOutcome::Failed(
            concat("git no longer tracks this checkout; not deleting ", shown.as_str()),
        );
    }
    if !force && dirty_worktree_refusal(stderr) {
        return RemoveOutcome::DirtyRequiresForce;
    }
    let reason = trim(stderr);
    RemoveOutcome::Failed(concat("git worktree remove failed: ", reason.as_str()))
}

/// The default branch: what the remote's head points to, else `main`, else `master`.
pub open spec fn default_branch_of(
    origin_head: Option<Seq<u8>>,
    local_branches: Seq<Seq<char>>,
) -> Option<Seq<char>> {
    let prefix = "refs/remotes/origin/"@;
    let head = match origin_head {
        Some(output) => trimmed(lossy_text(output)),
        None => Seq::empty(),
    };
    if origin_head is Some && begins_with(head, prefix) {
        Some(head.skip(prefix.len() as int))
    } else if local_branches.contains("main"@) {
        Some("main"@)
    } else if local_branches.contains("master"@) {
        Some("master"@)
    } else {
        None
    }
}

fn has_name(names: &Vec<String>, wanted: &str) -> (answer: bool)
    ensures
        answer == names.deep_view().contains(wanted@),
{
    let mut i: usize = 0;
    while i < names.len()
        invariant
            i <= names.len(),
            forall|k: int| 0 <= k < i ==> names.deep_view()[k] != wanted@,
        decreases names.len() - i,
    {
        if same_text(names[i].as_str(), wanted) {
            assert(names.deep_view()[i as int] == wanted@);
            return true;
        }
        i = i + 1;
    }
    false
}

/// Reads the default branch off `git symbolic-ref refs/remotes/origin/HEAD`, whose output is
/// `None` where the command failed.
pub fn default_branch(origin_head: Option<&[u8]>, local_branches: &Vec<String>) -> (branch: Option<
    String,
>)
    ensures
        branch.deep_view() == default_branch_of(
            origin_head.deep_view(),
            local_branches.deep_view(),
        ),
{
    match origin_head {
        Some(output) => {
            assert(output.deep_view() =~= output@);
            let text = decode_lossy(output);
            let head = trim(text.as_str());
            match strip_prefix(head.as_str(), "refs/remotes/origin/") {
                Some(branch) => {
                    return Some(branch);
                },
                None => {},
            }
        },
        None => {},
    }
    if has_name(local_branches, "main") {
        Some(owned("main"))
    } else if has_name(local_branches, "master") {
        Some(owned("master"))
    } else {
        None
    }
}

/// The entry for a repository at `path`, whose checkouts are not known yet; `None` where the
/// path has no name.
pub fn build_repo_stub(path: &PathBuf, rules: PathRules) -> (repo: Option<Repo>)
    ensures
        match repo {
            Some(found) => {
                &&& parts(path@, rules).len() > 0
                &&& parts(path@, rules).last() is Named
                &&& found.deep_view() == (RepoV {
                    name: lossy_text(parts(path@, rules).last()->Named_0),
                    path: path@,
                    is_git: true,
                    worktrees: Seq::empty(),
                })
            },
            None => parts(path@, rules).len() == 0 || !(parts(path@, rules).last() is Named),
        },
{
    match path.file_name(rules) {
        Some(name) => {
            let repo = Repo {
                name: decode_lossy(name.as_slice()),
                path: path.clone(),
                is_git: true,
                worktrees: Vec::new(),
            };
            assert(repo.worktrees.deep_view() =~= Seq::empty());
            Some(repo)
        },
        None => None,
    }
}

/// The path that the first `gitdir:` line of a `.git` file names.
pub open spec fn gitdir_line(lines: Seq<Seq<char>>) -> Option<Seq<char>>
    decreases lines.len(),
{
    let prefix = "gitdir:"@;
    if lines.len() == 0 {
        None
    } else if begins_with(lines[0], prefix) {
        Some(trimmed(lines[0].skip(prefix.len() as int)))
    } else {
        gitdir_line(lines.drop_first())
    }
}

#[verifier::loop_isolation(false)]
fn find_gitdir(content: &str) -> (found: Option<String>)
    ensures
        found.deep_view() == gitdir_line(pieces(content@, '\n')),
{
    let chars = chars_of(content);
    let split = split_chars(&chars, '\n');
    let ghost all = pieces(content@, '\n');
    assert(all.skip(0) =~= all);
    let mut i: usize = 0;
    while i < split.len()
        invariant
            i <= split.len(),
            gitdir_line(all) == gitdir_line(all.skip(i as int)),
        decreases split.len() - i,
    {
        proof {
            assert(all[i as int] =~= split@[i as int]@);
            assert(all.skip(i as int)[0] == split@[i as int]@);
            assert(all.skip(i as int).drop_first() =~= all.skip(i + 1));
        }
        let line = text_of(&split[i]);
        match strip_prefix(line.as_str(), "gitdir:") {
            Some(rest) => {
                return Some(trim(rest.as_str()));
            },
            None => {},
        }
        i = i + 1;
    }
    assert(all.skip(i as int) =~= Seq::<Seq<char>>::empty());
    None
}

/// Whether `root` spells the parent of `path`, and the last component of `path` is `name`.
pub open spec fn is_parent_of_named(root: Seq<u8>, path: Seq<u8>, name: Seq<u8>, rules: PathRules) -> bool {
    &&& is_parent_end(path, root.len() as int, rules)
    &&& root == path.take(root.len() as int)
    &&& parts(path, rules).last() == PathPart::Named(name)
}

/// Whether the metadata directory `gitdir` lies in `.git/worktrees` of the checkout at
/// `root`.
pub open spec fn is_linked_to(root: Seq<u8>, gitdir: Seq<u8>, rules: PathRules) -> bool {
    exists|metadata: Seq<u8>, git_dir: Seq<u8>|
        {
            &&& is_parent_end(gitdir, metadata.len() as int, rules)
            &&& metadata == gitdir.take(metadata.len() as int)
            &&& #[trigger] is_parent_of_named(git_dir, metadata, "worktrees".spec_bytes(), rules)
            &&& #[trigger] is_parent_of_named(root, git_dir, ".git".spec_bytes(), rules)
        }
}

proof fn lemma_parent_end_unique(path: Seq<u8>, a: int, b: int, rules: PathRules)
    requires
        is_parent_end(path, a, rules),
        is_parent_end(path, b, rules),
    ensures
        a == b,
{
    if a < b {
        assert(parts(path.take(a), rules) != parts(path, rules).drop_last());
    }
    if b < a {
        assert(parts(path.take(b), rules) != parts(path, rules).drop_last());
    }
}

fn parent_of_named(path: &PathBuf, name: &[u8], rules: PathRules) -> (root: Option<PathBuf>)
    ensures
        match root {
            Some(found) => is_parent_of_named(found@, path@, name@, rules),
            None => forall|other: Seq<u8>| !is_parent_of_named(other, path@, name@, rules),
        },
{
    match path.file_name(rules) {
        Some(found) => if bytes_equal(found.as_slice(), name) {
            path.parent(rules)
        } else {
            None
        },
        None => None,
    }
}

/// The main checkout that a linked checkout belongs to, read from its `.git` file. Other
/// `.git` files may belong to unrelated git setups: only a directory in `.git/worktrees`
/// makes a linked checkout.
pub fn main_repo_of_linked_worktree(path: &PathBuf, git_file: &str, rules: PathRules) -> (root: Option<PathBuf>)
    ensures
        match gitdir_line(pieces(git_file@, '\n')) {
            Some(line) => {
                let gitdir = joined_path(path@, vstd::utf8::encode_utf8(line), rules);
                match root {
                    Some(found) => is_linked_to(found@, gitdir, rules),
                    None => forall|other: Seq<u8>| !is_linked_to(other, gitdir, rules),
                }
            },
            None => root is None,
        },
{
    let line = match find_gitdir(git_file) {
        Some(line) => line,
        None => {
            return None;
        },
    };
    let gitdir = path.join(&PathBuf::new(line.as_str()), rules);
    let metadata = match gitdir.parent(rules) {
        Some(metadata) => metadata,
        None => {
            return None;
        },
    };
    let ghost dir = gitdir@;
    let git_dir = match parent_of_named(&metadata, "worktrees".as_bytes(), rules) {
        Some(git_dir) => git_dir,
        None => {
            proof {
                assert forall|other: Seq<u8>| !is_linked_to(other, dir, rules) by {
                    if is_linked_to(other, dir, rules) {
                        let (m, g) = choose|m: Seq<u8>, g: Seq<u8>|
                            {
                                &&& is_parent_end(dir, m.len() as int, rules)
                                &&& m == dir.take(m.len() as int)
                                &&& #[trigger] is_parent_of_named(g, m, "worktrees".spec_bytes(), rules)
                                &&& #[trigger] is_parent_of_named(other, g, ".git".spec_bytes(), rules)
                            };
                        lemma_parent_end_unique(dir, m.len() as int, metadata@.len() as int, rules);
                        assert(m == metadata@);
                    }
                }
            }
            return None;
        },
    };
    let root = parent_of_named(&git_dir, ".git".as_bytes(), rules);
    proof {
        match &root {
            Some(found) => {
                assert(is_parent_of_named(git_dir@, metadata@, "worktrees".spec_bytes(), rules));
                assert(is_parent_of_named(found@, git_dir@, ".git".spec_bytes(), rules));
                assert(is_linked_to(found@, dir, rules));
            },
            None => {
                assert forall|other: Seq<u8>| !is_linked_to(other, dir, rules) by {
                    if is_linked_to(other, dir, rules) {
                        let (m, g) = choose|m: Seq<u8>, g: Seq<u8>|
                            {
                                &&& is_parent_end(dir, m.len() as int, rules)
                                &&& m == dir.take(m.len() as int)
                                &&& #[trigger] is_parent_of_named(g, m, "worktrees".spec_bytes(), rules)
                                &&& #[trigger] is_parent_of_named(other, g, ".git".spec_bytes(), rules)
                            };
                        lemma_parent_end_unique(dir, m.len() as int, metadata@.len() as int, rules);
                        assert(m == metadata@);
                        lemma_parent_end_unique(m, g.len() as int, git_dir@.len() as int, rules);
                        assert(g == git_dir@);
                    }
                }
            },
        }
    }
    root
}

/// How long a fetch may take, in milliseconds.
pub const FETCH_TIMEOUT_MILLIS: u64 = 30_000;

/// How long to wait before a running fetch is looked at again, in milliseconds.
pub const CHILD_POLL_MILLIS: u64 = 25;

/// What a look at a running fetch showed.
#[derive(Debug, Clone, Copy, PartialEq, Eq, Structural)]
pub enum ChildState {
    Exited,
    Running,
    /// It could not be looked at.
    Lost,
}

/// What to do about a fetch.
#[derive(Debug, Clone, Copy, PartialEq, Eq, Structural)]
pub enum PollStep {
    ReadResult,
    /// It is stopped, and the fetch failed.
    GiveUp,
    /// It is stopped because it took too long.
    TimeOut,
    /// It is looked at again after so many milliseconds.
    Sleep(u64),
}

/// A fetch is waited for until its time is over, and never longer.
pub open spec fn poll_step(state: ChildState, elapsed: u64, timeout: u64) -> PollStep {
    match state {
        ChildState::Exited => PollStep::ReadResult,
        ChildState::Lost => PollStep::GiveUp,
        ChildState::Running => if elapsed >= timeout {
            PollStep::TimeOut
        } else if timeout - elapsed < CHILD_POLL_MILLIS {
            PollStep::Sleep((timeout - elapsed) as u64)
        } else {
            PollStep::Sleep(CHILD_POLL_MILLIS)
        },
    }
}

/// Decides what to do about a fetch after a look at it.
pub fn poll_fetch(state: ChildState, elapsed: u64, timeout: u64) -> (step: PollStep)
    ensures
        step == poll_step(state, elapsed, timeout),
        step matches PollStep::Sleep(wait) ==> 0 < wait && elapsed + wait <= timeout,
{
    match state {
        ChildState::Exited => PollStep::ReadResult,
        ChildState::Lost => PollStep::GiveUp,
        ChildState::Running => if elapsed >= timeout {
            PollStep::TimeOut
        } else if timeout - elapsed < CHILD_POLL_MILLIS {
            PollStep::Sleep(timeout - elapsed)
        } else {
            PollStep::Sleep(CHILD_POLL_MILLIS)
        },
    }
}

/// What is said of a git command that failed in a repository.
pub open spec fn git_failure(command: Seq<char>, repo_path: Seq<u8>, stderr: Seq<char>) -> Seq<
    char,
> {
    "git "@ + command + " failed in "@ + lossy_text(repo_path) + ": "@ + trimmed(stderr)
}

fn describe_git_failure(command: &str, repo_path: &PathBuf, stderr: &str) -> (message: String)
    ensures
        message@ == git_failure(command@, repo_path@, stderr@),
{
    let mut message = concat3("git ", command, " failed in ");
    message.push_str(decode_lossy(repo_path.bytes.as_slice()).as_str());
    message.push_str(": ");
    message.push_str(trim(stderr).as_str());
    message
}

/// Reads how a git command ended, from its arguments and what it printed.
pub fn run_outcome(
    success: bool,
    args: &Vec<String>,
    repo_path: &PathBuf,
    stderr: &str,
) -> (outcome: Result<(), String>)
    ensures
        match outcome {
            Ok(_) => success,
            Err(message) => !success && message@ == git_failure(
                joined(args.deep_view(), " "@),
                repo_path@,
                stderr@,
            ),
        },
{
    if success {
        Ok(())
    } else {
        Err(describe_git_failure(join(args, " ").as_str(), repo_path, stderr))
    }
}

/// Reads how `git fetch` ended.
pub fn fetch_outcome(success: bool, remote: &str, repo_path: &PathBuf, stderr: &str) -> (outcome:
    Result<(), String>)
    ensures
        match outcome {
            Ok(_) => success,
            Err(message) => !success && message@ == git_failure(
                "fetch "@ + remote@,
                repo_path@,
                stderr@,
            ),
        },
{
    if success {
        Ok(())
    } else {
        Err(describe_git_failure(concat("fetch ", remote).as_str(), repo_path, stderr))
    }
}

/// Reads how `git branch --track` ended: a branch that is there already is told apart.
pub fn tracking_outcome(
    success: bool,
    stderr: &str,
    repo_path: &PathBuf,
    branch: &str,
    remote: &str,
) -> (outcome: Result<(), GitError>)
    ensures
        match outcome {
            Ok(_) => success,
            Err(GitError::LocalBranchAlreadyExists(error)) => !success && already_exists(
                stderr@,
                branch@,
            ) && error.branch@ == branch@,
            Err(GitError::Other(message)) => !success && !already_exists(stderr@, branch@)
                && message@ == git_failure(
                "branch --track "@ + branch@ + (" "@ + remote@ + "/"@) + branch@,
                repo_path@,
                stderr@,
            ),
            Err(GitError::DirtyWorktreeRequiresForce(_)) => false,
        },
{
    if success {
        return Ok(());
    }
    if tracking_branch_already_exists(stderr, branch) {
        return Err(GitError::LocalBranchAlreadyExists(LocalBranchAlreadyExists::new(branch)));
    }
    let mut command = concat("branch --track ", branch);
    command.push_str(concat3(" ", remote, "/").as_str());
    command.push_str(branch);
    Err(GitError::Other(describe_git_failure(command.as_str(), repo_path, stderr)))
}

/// The checkouts that git listed, of which there must be one.
pub fn checked_worktrees(listed: Listed<Worktree>, repo_path: &PathBuf) -> (checked: Result<
    Listed<Worktree>,
    String,
>)
    ensures
        match checked {
            Ok(found) => listed.items@.len() > 0 && found == listed,
            Err(message) => listed.items@.len() == 0 && message@
                == "git worktree list returned no worktrees for "@ + lossy_text(repo_path@),
        },
{
    if listed.items.len() == 0 {
        let shown = decode_lossy(repo_path.bytes.as_slice());
        Err(concat("git worktree list returned no worktrees for ", shown.as_str()))
    } else {
        Ok(listed)
    }
}

} // verus!
