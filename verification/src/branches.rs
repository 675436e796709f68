//! Branches of a repository: identities, the rows of the branch list and their order.

use crate::git::{Repo, Worktree, WorktreeV};
use crate::herdr::{WorktreeInfo, WorktreeInfoV};
use crate::order::{by_key, chained, compare_bool, compare_optional_text, compare_text, consistent, in_order, lemma_by_key_consistent, lemma_chained_consistent, lemma_consistent_total, lemma_rank_bool_consistent, lemma_rank_optional_text_consistent, lemma_rank_text_consistent, lemma_sort_map, lemma_stable_sort, not_after, rank_bool, rank_optional_text, rank_text, stable_rearrangement, stable_sort, stable_sorted, Rank};
use crate::path::{components, equivalent, parts, same_place, starts_with, within, PathBuf, PathRules};
use crate::text::{concat3, copy_optional_text, owned, same_text};
use vstd::prelude::*;
use vstd::string::*;

verus! {

/// What a branch is: a local one by its name, a remote one by its remote and its name.
#[derive(Debug, PartialEq, Eq)]
pub enum BranchId {
    Local(String),
    Remote { remote: String, name: String },
}

pub enum BranchIdV {
    Local(Seq<char>),
    Remote { remote: Seq<char>, name: Seq<char> },
}

impl DeepView for BranchId {
    type V = BranchIdV;

    open spec fn deep_view(&self) -> BranchIdV {
        match self {
            BranchId::Local(name) => BranchIdV::Local(name@),
            BranchId::Remote { remote, name } => BranchIdV::Remote { remote: remote@, name: name@ },
        }
    }
}

impl Clone for BranchId {
    fn clone(&self) -> (id: Self)
        ensures
            id.deep_view() == self.deep_view(),
    {
        match self {
            BranchId::Local(name) => BranchId::Local(name.clone()),
            BranchId::Remote { remote, name } => BranchId::Remote {
                remote: remote.clone(),
                name: name.clone(),
            },
        }
    }
}

impl<'a> From<&'a str> for BranchId {
    fn from(name: &'a str) -> (id: BranchId)
        ensures
            id.deep_view() == BranchIdV::Local(name@),
    {
        BranchId::Local(owned(name))
    }
}

impl<'a> vstd::std_specs::convert::FromSpecImpl<&'a str> for BranchId {
    open spec fn obeys_from_spec() -> bool {
        false
    }

    open spec fn from_spec(name: &'a str) -> Self {
        arbitrary()
    }
}

impl BranchIdV {
    /// A remote branch is shown behind its remote.
    pub open spec fn display(self) -> Seq<char> {
        match self {
            BranchIdV::Local(name) => name,
            BranchIdV::Remote { remote, name } => remote + "/"@ + name,
        }
    }
}

impl BranchId {
    pub fn display_name(&self) -> (text: String)
        ensures
            text@ == self.deep_view().display(),
    {
        match self {
            BranchId::Local(name) => name.clone(),
            BranchId::Remote { remote, name } => concat3(remote.as_str(), "/", name.as_str()),
        }
    }

    pub fn same(&self, other: &BranchId) -> (answer: bool)
        ensures
            answer == (self.deep_view() == other.deep_view()),
    {
        match (self, other) {
            (BranchId::Local(l), BranchId::Local(r)) => same_text(l.as_str(), r.as_str()),
            (
                BranchId::Remote { remote: lr, name: ln },
                BranchId::Remote { remote: rr, name: rn },
            ) => same_text(lr.as_str(), rr.as_str()) && same_text(ln.as_str(), rn.as_str()),
            _ => false,
        }
    }
}

/// One row of the branch list.
#[derive(Debug, PartialEq, Eq)]
pub struct BranchEntry {
    pub name: String,
    pub worktree_path: Option<PathBuf>,
    pub is_current: bool,
    pub is_default: bool,
    pub remote: Option<String>,
    pub open_workspace_id: Option<String>,
}

pub struct BranchEntryV {
    pub name: Seq<char>,
    pub worktree_path: Option<Seq<u8>>,
    pub is_current: bool,
    pub is_default: bool,
    pub remote: Option<Seq<char>>,
    pub open_workspace_id: Option<Seq<char>>,
}

impl DeepView for BranchEntry {
    type V = BranchEntryV;

    open spec fn deep_view(&self) -> BranchEntryV {
        BranchEntryV {
            name: self.name@,
            worktree_path: self.worktree_path.deep_view(),
            is_current: self.is_current,
            is_default: self.is_default,
            remote: self.remote.deep_view(),
            open_workspace_id: self.open_workspace_id.deep_view(),
        }
    }
}

pub fn copy_optional_path(path: &Option<PathBuf>) -> (copy: Option<PathBuf>)
    ensures
        copy.deep_view() == path.deep_view(),
{
    match path {
        Some(value) => Some(value.clone()),
        None => None,
    }
}

impl Clone for BranchEntry {
    fn clone(&self) -> (entry: Self)
        ensures
            entry.deep_view() == self.deep_view(),
    {
        BranchEntry {
            name: self.name.clone(),
            worktree_path: copy_optional_path(&self.worktree_path),
            is_current: self.is_current,
            is_default: self.is_default,
            remote: copy_optional_text(&self.remote),
            open_workspace_id: copy_optional_text(&self.open_workspace_id),
        }
    }
}

pub fn copy_entries(entries: &Vec<BranchEntry>) -> (copy: Vec<BranchEntry>)
    ensures
        copy.deep_view() == entries.deep_view(),
{
    let mut copy: Vec<BranchEntry> = Vec::new();
    let mut i: usize = 0;
    while i < entries.len()
        invariant
            i <= entries.len(),
            copy@.len() == i,
            forall|k: int| 0 <= k < i ==> copy@[k].deep_view() == entries@[k].deep_view(),
        decreases entries.len() - i,
    {
        copy.push(entries[i].clone());
        i = i + 1;
    }
    assert(copy.deep_view() =~= entries.deep_view());
    copy
}

impl BranchEntryV {
    pub open spec fn id(self) -> BranchIdV {
        match self.remote {
            Some(remote) => BranchIdV::Remote { remote, name: self.name },
            None => BranchIdV::Local(self.name),
        }
    }

    /// A branch of which nothing but its name is known.
    pub open spec fn plain(name: Seq<char>, remote: Option<Seq<char>>) -> BranchEntryV {
        BranchEntryV {
            name,
            worktree_path: None,
            is_current: false,
            is_default: false,
            remote,
            open_workspace_id: None,
        }
    }

    /// The row with its workspace marker taken from the first listed checkout at its path.
    pub open spec fn with_open_worktrees(
        self,
        worktrees: Seq<WorktreeInfoV>,
        rules: PathRules,
    ) -> BranchEntryV {
        BranchEntryV {
            open_workspace_id: match self.worktree_path {
                Some(path) => workspace_at(worktrees, path, rules),
                None => None,
            },
            ..self
        }
    }
}

/// The workspace that shows the first listed checkout at `path`.
pub open spec fn workspace_at(
    worktrees: Seq<WorktreeInfoV>,
    path: Seq<u8>,
    rules: PathRules,
) -> Option<Seq<char>>
    decreases worktrees.len(),
{
    if worktrees.len() == 0 {
        None
    } else if same_place(vstd::utf8::encode_utf8(worktrees[0].path), path, rules) {
        worktrees[0].open_workspace_id
    } else {
        workspace_at(worktrees.drop_first(), path, rules)
    }
}

/// Order of the branch list: local branches first, then the current one, the default one and
/// those with a checkout, then by name and by remote.
pub open spec fn rank_branches() -> spec_fn(BranchEntryV, BranchEntryV) -> Rank {
    |a: BranchEntryV, b: BranchEntryV|
        rank_bool(a.remote is Some, b.remote is Some).or_else_spec(
            rank_bool(b.is_current, a.is_current).or_else_spec(
                rank_bool(b.is_default, a.is_default).or_else_spec(
                    rank_bool(b.worktree_path is Some, a.worktree_path is Some).or_else_spec(
                        rank_text(a.name, b.name).or_else_spec(
                            rank_optional_text(a.remote, b.remote),
                        ),
                    ),
                ),
            ),
        )
}

/// The branch list in its order.
pub open spec fn sorted_branches(entries: Seq<BranchEntryV>) -> Seq<BranchEntryV> {
    stable_sorted(entries, not_after(rank_branches()))
}

proof fn lemma_flipped_bool_consistent()
    ensures
        consistent(|a: bool, b: bool| rank_bool(b, a)),
{
}

pub proof fn lemma_rank_branches_consistent()
    ensures
        consistent(rank_branches()),
{
    lemma_rank_bool_consistent();
    lemma_flipped_bool_consistent();
    lemma_rank_text_consistent();
    lemma_rank_optional_text_consistent();
    let up = |a: bool, b: bool| rank_bool(a, b);
    let down = |a: bool, b: bool| rank_bool(b, a);
    let text = |a: Seq<char>, b: Seq<char>| rank_text(a, b);
    let optional = |a: Option<Seq<char>>, b: Option<Seq<char>>| rank_optional_text(a, b);
    let k1 = |e: BranchEntryV| e.remote is Some;
    let k2 = |e: BranchEntryV| e.is_current;
    let k3 = |e: BranchEntryV| e.is_default;
    let k4 = |e: BranchEntryV| e.worktree_path is Some;
    let k5 = |e: BranchEntryV| e.name;
    let k6 = |e: BranchEntryV| e.remote;
    lemma_by_key_consistent(up, k1);
    lemma_by_key_consistent(down, k2);
    lemma_by_key_consistent(down, k3);
    lemma_by_key_consistent(down, k4);
    lemma_by_key_consistent(text, k5);
    lemma_by_key_consistent(optional, k6);
    let c5 = chained(by_key(text, k5), by_key(optional, k6));
    lemma_chained_consistent(by_key(text, k5), by_key(optional, k6));
    let c4 = chained(by_key(down, k4), c5);
    lemma_chained_consistent(by_key(down, k4), c5);
    let c3 = chained(by_key(down, k3), c4);
    lemma_chained_consistent(by_key(down, k3), c4);
    let c2 = chained(by_key(down, k2), c3);
    lemma_chained_consistent(by_key(down, k2), c3);
    let c1 = chained(by_key(up, k1), c2);
    lemma_chained_consistent(by_key(up, k1), c2);
    assert(c1 =~= rank_branches());
}

/// Sorting the branch list rearranges its rows, brings every pair into order and leaves
/// equal rows as they stood.
pub proof fn lemma_sorted_branches(entries: Seq<BranchEntryV>) -> (places: Seq<int>)
    ensures
        in_order(sorted_branches(entries), not_after(rank_branches())),
        stable_rearrangement(
            entries,
            sorted_branches(entries),
            not_after(rank_branches()),
            places,
        ),
{
    lemma_rank_branches_consistent();
    lemma_consistent_total(rank_branches());
    lemma_stable_sort(entries, not_after(rank_branches()))
}

fn compare_branches(left: &BranchEntry, right: &BranchEntry) -> (result: Rank)
    ensures
        result == rank_branches()(left.deep_view(), right.deep_view()),
{
    let by_kind = compare_bool(left.remote.is_some(), right.remote.is_some());
    let by_current = compare_bool(right.is_current, left.is_current);
    let by_default = compare_bool(right.is_default, left.is_default);
    let by_checkout = compare_bool(right.worktree_path.is_some(), left.worktree_path.is_some());
    let by_name = compare_text(left.name.as_str(), right.name.as_str());
    let by_remote = compare_optional_text(&left.remote, &right.remote);
    by_kind.or_else(
        by_current.or_else(by_default.or_else(by_checkout.or_else(by_name.or_else(by_remote)))),
    )
}

/// The checkout of a branch: the last one that has it checked out.
pub open spec fn checkout_of(worktrees: Seq<WorktreeV>, name: Seq<char>) -> Option<Seq<u8>>
    decreases worktrees.len(),
{
    if worktrees.len() == 0 {
        None
    } else if worktrees.last().branch == Some(name) {
        Some(worktrees.last().path)
    } else {
        checkout_of(worktrees.drop_last(), name)
    }
}

/// The deepest checkout that holds `cwd`, the last one of equally deep ones.
pub open spec fn deepest_checkout(
    worktrees: Seq<WorktreeV>,
    cwd: Seq<u8>,
    rules: PathRules,
) -> Option<WorktreeV>
    decreases worktrees.len(),
{
    if worktrees.len() == 0 {
        None
    } else {
        let before = deepest_checkout(worktrees.drop_last(), cwd, rules);
        let last = worktrees.last();
        if within(cwd, last.path, rules) && (before is None || parts(before->0.path, rules).len() <= parts(
            last.path,
            rules,
        ).len()) {
            Some(last)
        } else {
            before
        }
    }
}

/// The branch that is checked out where `cwd` is.
pub open spec fn current_branch(
    worktrees: Seq<WorktreeV>,
    cwd: Option<Seq<u8>>,
    rules: PathRules,
) -> Option<Seq<char>> {
    match cwd {
        Some(path) => match deepest_checkout(worktrees, path, rules) {
            Some(worktree) => worktree.branch,
            None => None,
        },
        None => None,
    }
}

/// The row of a local branch.
pub open spec fn local_entry(
    worktrees: Seq<WorktreeV>,
    name: Seq<char>,
    default_branch: Option<Seq<char>>,
    cwd: Option<Seq<u8>>,
    rules: PathRules,
) -> BranchEntryV {
    BranchEntryV {
        name,
        worktree_path: checkout_of(worktrees, name),
        is_current: current_branch(worktrees, cwd, rules) == Some(name),
        is_default: default_branch == Some(name),
        remote: None,
        open_workspace_id: None,
    }
}

pub open spec fn local_entries(
    worktrees: Seq<WorktreeV>,
    names: Seq<Seq<char>>,
    default_branch: Option<Seq<char>>,
    cwd: Option<Seq<u8>>,
    rules: PathRules,
) -> Seq<BranchEntryV> {
    names.map_values(|name: Seq<char>| local_entry(worktrees, name, default_branch, cwd, rules))
}

/// The rows of the remote branches that have no local namesake.
pub open spec fn remote_entries(
    remote: Seq<char>,
    names: Seq<Seq<char>>,
    local_names: Seq<Seq<char>>,
) -> Seq<BranchEntryV>
    decreases names.len(),
{
    if names.len() == 0 {
        Seq::empty()
    } else {
        let before = remote_entries(remote, names.drop_last(), local_names);
        if local_names.contains(names.last()) {
            before
        } else {
            before.push(BranchEntryV::plain(names.last(), Some(remote)))
        }
    }
}

pub fn has_text(texts: &[String], wanted: &str) -> (answer: bool)
    ensures
        answer == texts.deep_view().contains(wanted@),
{
    let mut i: usize = 0;
    while i < texts.len()
        invariant
            i <= texts.len(),
            forall|k: int| 0 <= k < i ==> texts.deep_view()[k] != wanted@,
        decreases texts.len() - i,
    {
        if same_text(texts[i].as_str(), wanted) {
            assert(texts.deep_view()[i as int] == wanted@);
            return true;
        }
        i = i + 1;
    }
    false
}

fn find_checkout(worktrees: &Vec<Worktree>, name: &str) -> (path: Option<PathBuf>)
    ensures
        path.deep_view() == checkout_of(worktrees.deep_view(), name@),
{
    let ghost all = worktrees.deep_view();
    let mut i: usize = worktrees.len();
    assert(all.take(all.len() as int) =~= all);
    while i > 0
        invariant
            i <= worktrees.len(),
            all == worktrees.deep_view(),
            checkout_of(all, name@) == checkout_of(all.take(i as int), name@),
        decreases i,
    {
        proof {
            assert(all.take(i as int).last() == worktrees@[i - 1].deep_view());
            assert(all.take(i as int).drop_last() =~= all.take(i - 1));
        }
        i = i - 1;
        match &worktrees[i].branch {
            Some(branch) => {
                if same_text(branch.as_str(), name) {
                    return Some(worktrees[i].path.clone());
                }
            },
            None => {},
        }
    }
    None
}

fn find_current(worktrees: &Vec<Worktree>, cwd: &PathBuf, rules: PathRules) -> (branch: Option<
    String,
>)
    ensures
        branch.deep_view() == current_branch(worktrees.deep_view(), Some(cwd@), rules),
{
    let ghost all = worktrees.deep_view();
    let mut best: Option<usize> = None;
    let mut depth: usize = 0;
    let mut i: usize = 0;
    while i < worktrees.len()
        invariant
            i <= worktrees.len(),
            all == worktrees.deep_view(),
            match best {
                Some(at) => at < i && deepest_checkout(all.take(i as int), cwd@, rules) == Some(
                    worktrees@[at as int].deep_view(),
                ) && depth == parts(worktrees@[at as int].path@, rules).len(),
                None => deepest_checkout(all.take(i as int), cwd@, rules) is None,
            },
        decreases worktrees.len() - i,
    {
        proof {
            assert(all.take(i + 1).last() == worktrees@[i as int].deep_view());
            assert(all.take(i + 1).drop_last() =~= all.take(i as int));
        }
        if starts_with(cwd, &worktrees[i].path, rules) {
            let deep = components(&worktrees[i].path, rules).len();
            if best.is_none() || depth <= deep {
                best = Some(i);
                depth = deep;
            }
        }
        i = i + 1;
    }
    assert(all.take(all.len() as int) =~= all);
    match best {
        Some(at) => copy_optional_text(&worktrees[at].branch),
        None => None,
    }
}

fn same_as_text(value: &Option<String>, text: &str) -> (answer: bool)
    ensures
        answer == (value.deep_view() == Some(text@)),
{
    match value {
        Some(found) => same_text(found.as_str(), text),
        None => false,
    }
}

impl BranchEntry {
    pub fn id(&self) -> (id: BranchId)
        ensures
            id.deep_view() == self.deep_view().id(),
    {
        match &self.remote {
            Some(remote) => BranchId::Remote { remote: remote.clone(), name: self.name.clone() },
            None => BranchId::Local(self.name.clone()),
        }
    }

    pub fn display_name(&self) -> (text: String)
        ensures
            text@ == self.deep_view().id().display(),
    {
        self.id().display_name()
    }

    /// A row of which nothing but its name is known.
    pub fn plain(name: String, remote: Option<String>) -> (entry: BranchEntry)
        ensures
            entry.deep_view() == BranchEntryV::plain(name@, remote.deep_view()),
    {
        BranchEntry {
            name,
            worktree_path: None,
            is_current: false,
            is_default: false,
            remote,
            open_workspace_id: None,
        }
    }

    /// The rows of the local branches, in order.
    #[verifier::loop_isolation(false)]
    pub fn build_local(
        repo: &Repo,
        branch_names: &[String],
        default_branch: Option<&str>,
        cwd: Option<&PathBuf>,
        rules: PathRules,
    ) -> (entries: Vec<BranchEntry>)
        ensures
            entries.deep_view() == sorted_branches(
                local_entries(
                    repo.deep_view().worktrees,
                    branch_names.deep_view(),
                    default_branch.deep_view(),
                    cwd.deep_view(),
                    rules,
                ),
            ),
    {
        let current: Option<String> = match cwd {
            Some(path) => find_current(&repo.worktrees, path, rules),
            None => None,
        };
        let ghost trees = repo.deep_view().worktrees;
        let ghost default_view = default_branch.deep_view();
        let ghost cwd_view = cwd.deep_view();
        let ghost names = branch_names.deep_view();
        let ghost wanted = local_entries(trees, names, default_view, cwd_view, rules);
        assert(current.deep_view() == current_branch(trees, cwd_view, rules));
        let mut entries: Vec<BranchEntry> = Vec::new();
        let mut i: usize = 0;
        while i < branch_names.len()
            invariant
                i <= branch_names.len(),
                entries@.len() == i,
                forall|k: int| 0 <= k < i ==> (#[trigger] entries@[k]).deep_view() == wanted[k],
            decreases branch_names.len() - i,
        {
            let name: &String = &branch_names[i];
            let is_default = match default_branch {
                Some(text) => same_text(text, name.as_str()),
                None => false,
            };
            let entry = BranchEntry {
                name: name.clone(),
                worktree_path: find_checkout(&repo.worktrees, name.as_str()),
                is_current: same_as_text(&current, name.as_str()),
                is_default,
                remote: None,
                open_workspace_id: None,
            };
            assert(names[i as int] == name@);
            assert(entry.deep_view() == wanted[i as int]);
            entries.push(entry);
            i = i + 1;
        }
        assert(entries.deep_view() =~= wanted);
        BranchEntry::sort(entries)
    }

    /// The rows of the branches of one remote that have no local namesake.
    #[verifier::loop_isolation(false)]
    pub fn build_remote(remote: &str, remote_names: &[String], local_names: &[String]) -> (entries:
        Vec<BranchEntry>)
        ensures
            entries.deep_view() == remote_entries(
                remote@,
                remote_names.deep_view(),
                local_names.deep_view(),
            ),
    {
        let ghost names = remote_names.deep_view();
        let mut entries: Vec<BranchEntry> = Vec::new();
        let mut i: usize = 0;
        assert(entries.deep_view() =~= remote_entries(
            remote@,
            names.take(0),
            local_names.deep_view(),
        ));
        while i < remote_names.len()
            invariant
                i <= remote_names.len(),
                entries.deep_view() == remote_entries(
                    remote@,
                    names.take(i as int),
                    local_names.deep_view(),
                ),
            decreases remote_names.len() - i,
        {
            let ghost before = entries.deep_view();
            proof {
                assert(names.take(i + 1).last() == remote_names@[i as int]@);
                assert(names.take(i + 1).drop_last() =~= names.take(i as int));
            }
            if !has_text(local_names, remote_names[i].as_str()) {
                let entry = BranchEntry::plain(remote_names[i].clone(), Some(owned(remote)));
                let ghost added = entry.deep_view();
                entries.push(entry);
                assert(entries.deep_view() =~= before.push(added));
            }
            i = i + 1;
        }
        assert(names.take(names.len() as int) =~= names);
        entries
    }

    /// Takes the workspace marker of this row from a listing of open checkouts.
    pub fn apply_open_worktrees(&mut self, worktrees: &[WorktreeInfo], rules: PathRules)
        ensures
            final(self).deep_view() == old(self).deep_view().with_open_worktrees(
                worktrees.deep_view(),
                rules,
            ),
    {
        let marker: Option<String> = match &self.worktree_path {
            Some(path) => find_workspace(worktrees, path, rules),
            None => None,
        };
        self.open_workspace_id = marker;
    }

    /// The rows in the order of the branch list.
    pub fn sort(entries: Vec<BranchEntry>) -> (sorted: Vec<BranchEntry>)
        ensures
            sorted.deep_view() == sorted_branches(entries.deep_view()),
    {
        let ghost order = |a: BranchEntry, b: BranchEntry|
            not_after(rank_branches())(a.deep_view(), b.deep_view());
        let ghost before = entries@;
        let ghost image = |e: BranchEntry| e.deep_view();
        let le = |a: &BranchEntry, b: &BranchEntry| -> (answer: bool)
            ensures
                answer == order(*a, *b),
        {
            let rank = compare_branches(a, b);
            rank != Rank::Greater
        };
        let sorted = stable_sort(entries, le, Ghost(order));
        proof {
            lemma_sort_map(before, order, image, not_after(rank_branches()));
            assert(before.map_values(image) =~= entries.deep_view());
            assert(sorted@.map_values(image) =~= sorted.deep_view());
        }
        sorted
    }
}

fn find_workspace(worktrees: &[WorktreeInfo], path: &PathBuf, rules: PathRules) -> (found: Option<
    String,
>)
    ensures
        found.deep_view() == workspace_at(worktrees.deep_view(), path@, rules),
{
    let ghost all = worktrees.deep_view();
    let mut i: usize = 0;
    assert(all.skip(0) =~= all);
    while i < worktrees.len()
        invariant
            i <= worktrees.len(),
            all == worktrees.deep_view(),
            workspace_at(all, path@, rules) == workspace_at(all.skip(i as int), path@, rules),
        decreases worktrees.len() - i,
    {
        proof {
            assert(all.skip(i as int)[0] == worktrees@[i as int].deep_view());
            assert(all.skip(i as int).drop_first() =~= all.skip(i + 1));
        }
        let place = PathBuf::new(worktrees[i].path.as_str());
        if equivalent(&place, path, rules) {
            return copy_optional_text(&worktrees[i].open_workspace_id);
        }
        i = i + 1;
    }
    assert(all.skip(i as int) =~= Seq::<WorktreeInfoV>::empty());
    None
}

} // verus!
