//! Which repositories and branches were opened last.

use crate::branches::{BranchId, BranchIdV};
use crate::config::{push_warning, ConfigWarning};
use crate::path::{equal_paths, path_text, same_path, PathBuf, PathRules};
use crate::state_store::{file_problem, read_entries, usable_entries, SavedFile};
use crate::text::{concat, concat3, join, joined, lossy_text, owned};
use vstd::prelude::*;
use vstd::string::*;

verus! {

pub const MAX_ENTRIES: usize = 200;

pub const STATE_VERSION: u32 = 1;

/// What was opened: a repository, or a branch of one.
#[derive(Debug, PartialEq, Eq)]
pub enum RecencyKey {
    Repo { path: PathBuf },
    Branch { repo_path: PathBuf, branch: BranchId },
}

pub enum RecencyKeyV {
    Repo { path: Seq<u8> },
    Branch { repo_path: Seq<u8>, branch: BranchIdV },
}

impl DeepView for RecencyKey {
    type V = RecencyKeyV;

    open spec fn deep_view(&self) -> RecencyKeyV {
        match self {
            RecencyKey::Repo { path } => RecencyKeyV::Repo { path: path@ },
            RecencyKey::Branch { repo_path, branch } => RecencyKeyV::Branch {
                repo_path: repo_path@,
                branch: branch.deep_view(),
            },
        }
    }
}

impl Clone for RecencyKey {
    fn clone(&self) -> (key: Self)
        ensures
            key.deep_view() == self.deep_view(),
    {
        match self {
            RecencyKey::Repo { path } => RecencyKey::Repo { path: path.clone() },
            RecencyKey::Branch { repo_path, branch } => RecencyKey::Branch {
                repo_path: repo_path.clone(),
                branch: branch.clone(),
            },
        }
    }
}

/// Whether two keys stand for the same thing.
pub open spec fn same_key(left: RecencyKeyV, right: RecencyKeyV, rules: PathRules) -> bool {
    match (left, right) {
        (RecencyKeyV::Repo { path: l }, RecencyKeyV::Repo { path: r }) => same_path(l, r, rules),
        (
            RecencyKeyV::Branch { repo_path: l, branch: lb },
            RecencyKeyV::Branch { repo_path: r, branch: rb },
        ) => same_path(l, r, rules) && lb == rb,
        _ => false,
    }
}

impl RecencyKey {
    /// The key of the repository at a canonical path.
    pub fn repo(path: &PathBuf) -> (key: RecencyKey)
        ensures
            key.deep_view() == (RecencyKeyV::Repo { path: path@ }),
    {
        RecencyKey::Repo { path: path.clone() }
    }

    /// The key of a branch of the repository at a canonical path.
    pub fn branch(repo_path: &PathBuf, branch: BranchId) -> (key: RecencyKey)
        ensures
            key.deep_view() == (RecencyKeyV::Branch {
                repo_path: repo_path@,
                branch: branch.deep_view(),
            }),
    {
        RecencyKey::Branch { repo_path: repo_path.clone(), branch }
    }

    pub fn same(&self, other: &RecencyKey, rules: PathRules) -> (answer: bool)
        ensures
            answer == same_key(self.deep_view(), other.deep_view(), rules),
    {
        match (self, other) {
            (RecencyKey::Repo { path: l }, RecencyKey::Repo { path: r }) => equal_paths(l, r, rules),
            (
                RecencyKey::Branch { repo_path: l, branch: lb },
                RecencyKey::Branch { repo_path: r, branch: rb },
            ) => equal_paths(l, r, rules) && lb.same(rb),
            _ => false,
        }
    }
}

/// The keys but those that stand for the same thing as `key`.
pub open spec fn without_key(entries: Seq<RecencyKeyV>, key: RecencyKeyV, rules: PathRules) -> Seq<RecencyKeyV>
    decreases entries.len(),
{
    if entries.len() == 0 {
        entries
    } else {
        let before = without_key(entries.drop_last(), key, rules);
        if same_key(entries.last(), key, rules) {
            before
        } else {
            before.push(entries.last())
        }
    }
}

/// No two keys stand for the same thing.
pub open spec fn distinct_keys(entries: Seq<RecencyKeyV>, rules: PathRules) -> bool {
    forall|i: int, j: int|
        0 <= i < j < entries.len() ==> !same_key(#[trigger] entries[i], #[trigger] entries[j], rules)
}

/// Where a key stands among the keys.
pub open spec fn key_position(entries: Seq<RecencyKeyV>, key: RecencyKeyV, rules: PathRules) -> Option<nat>
    decreases entries.len(),
{
    if entries.len() == 0 {
        None
    } else if same_key(entries[0], key, rules) {
        Some(0)
    } else {
        match key_position(entries.drop_first(), key, rules) {
            Some(position) => Some(position + 1),
            None => None,
        }
    }
}

pub fn find_key(entries: &Vec<RecencyKey>, key: &RecencyKey, rules: PathRules) -> (position: Option<usize>)
    ensures
        match key_position(entries.deep_view(), key.deep_view(), rules) {
            Some(at) => position is Some && position->0 as nat == at && at < entries@.len(),
            None => position is None,
        },
{
    let ghost all = entries.deep_view();
    let ghost wanted = key.deep_view();
    let mut i: usize = 0;
    assert(all.skip(0) =~= all);
    while i < entries.len()
        invariant
            i <= entries.len(),
            all == entries.deep_view(),
            wanted == key.deep_view(),
            key_position(all, wanted, rules) == match key_position(all.skip(i as int), wanted, rules) {
                Some(at) => Some(at + i as nat),
                None => None::<nat>,
            },
        decreases entries.len() - i,
    {
        proof {
            assert(all.skip(i as int)[0] == entries@[i as int].deep_view());
            assert(all.skip(i as int).drop_first() =~= all.skip(i + 1));
        }
        if entries[i].same(key, rules) {
            return Some(i);
        }
        i = i + 1;
    }
    assert(all.skip(i as int) =~= Seq::<RecencyKeyV>::empty());
    None
}

pub proof fn lemma_without_key(entries: Seq<RecencyKeyV>, key: RecencyKeyV, rules: PathRules)
    ensures
        without_key(entries, key, rules).len() <= entries.len(),
        forall|i: int|
            0 <= i < without_key(entries, key, rules).len() ==> !same_key(
                #[trigger] without_key(entries, key, rules)[i],
                key,
                rules,
            ) && entries.contains(without_key(entries, key, rules)[i]),
        distinct_keys(entries, rules) ==> distinct_keys(without_key(entries, key, rules), rules),
    decreases entries.len(),
{
    let out = without_key(entries, key, rules);
    if entries.len() > 0 {
        let before = entries.drop_last();
        let inner = without_key(before, key, rules);
        lemma_without_key(before, key, rules);
        assert forall|i: int| 0 <= i < out.len() implies !same_key(#[trigger] out[i], key, rules)
            && entries.contains(out[i]) by {
            if i < inner.len() {
                assert(out[i] == inner[i]);
                let k = choose|k: int| 0 <= k < before.len() && before[k] == inner[i];
                assert(entries[k] == out[i]);
            } else {
                assert(entries[entries.len() - 1] == out[i]);
            }
        }
        if distinct_keys(entries, rules) {
            assert forall|i: int, j: int| 0 <= i < j < before.len() implies !same_key(
                #[trigger] before[i],
                #[trigger] before[j],
                rules,
            ) by {
                assert(!same_key(entries[i], entries[j], rules));
            }
            assert forall|i: int, j: int| 0 <= i < j < out.len() implies !same_key(
                #[trigger] out[i],
                #[trigger] out[j],
                rules,
            ) by {
                assert(out[i] == inner[i]);
                if j < inner.len() {
                    assert(out[j] == inner[j]);
                    assert(!same_key(inner[i], inner[j], rules));
                } else {
                    let k = choose|k: int| 0 <= k < before.len() && before[k] == inner[i];
                    assert(!same_key(entries[k], entries[entries.len() - 1], rules));
                }
            }
        }
    }
}

/// The keys that were opened last, the latest first.
#[derive(Debug, PartialEq, Eq)]
pub struct RecencyStore {
    pub entries: Vec<RecencyKey>,
}

impl DeepView for RecencyStore {
    type V = Seq<RecencyKeyV>;

    open spec fn deep_view(&self) -> Seq<RecencyKeyV> {
        self.entries.deep_view()
    }
}

/// No key twice, and not more keys than are kept.
pub open spec fn recency_wf(entries: Seq<RecencyKeyV>, rules: PathRules) -> bool {
    distinct_keys(entries, rules) && entries.len() <= MAX_ENTRIES
}

/// The keys after one more was opened: it comes first, and the oldest ones make room.
pub open spec fn recorded(entries: Seq<RecencyKeyV>, key: RecencyKeyV, rules: PathRules) -> Seq<RecencyKeyV> {
    let moved = seq![key] + without_key(entries, key, rules);
    if moved.len() <= MAX_ENTRIES {
        moved
    } else {
        moved.take(MAX_ENTRIES as int)
    }
}

/// Opening something keeps the store in order.
pub proof fn lemma_recorded_wf(entries: Seq<RecencyKeyV>, key: RecencyKeyV, rules: PathRules)
    requires
        distinct_keys(entries, rules),
    ensures
        recency_wf(recorded(entries, key, rules), rules),
{
    lemma_without_key(entries, key, rules);
    let kept = without_key(entries, key, rules);
    let moved = seq![key] + kept;
    let out = recorded(entries, key, rules);
    assert forall|i: int, j: int| 0 <= i < j < out.len() implies !same_key(
        #[trigger] out[i],
        #[trigger] out[j],
        rules,
    ) by {
        assert(out[i] == moved[i] && out[j] == moved[j]);
        assert(moved[j] == kept[j - 1]);
        if i > 0 {
            assert(moved[i] == kept[i - 1]);
            assert(!same_key(kept[i - 1], kept[j - 1], rules));
        } else {
            assert(!same_key(kept[j - 1], key, rules));
            lemma_same_key_symmetric(kept[j - 1], key, rules);
        }
    }
}

pub proof fn lemma_same_key_symmetric(left: RecencyKeyV, right: RecencyKeyV, rules: PathRules)
    ensures
        same_key(left, right, rules) == same_key(right, left, rules),
{
}

/// What was opened last has the first rank.
pub proof fn lemma_recorded_rank(entries: Seq<RecencyKeyV>, key: RecencyKeyV, rules: PathRules)
    ensures
        key_position(recorded(entries, key, rules), key, rules) == Some(0nat),
{
    let moved = seq![key] + without_key(entries, key, rules);
    assert(recorded(entries, key, rules)[0] == moved[0]);
}

/// Recording a repository beside its branch: the branch stays first and the repository comes
/// second.
pub open spec fn recorded_opening(entries: Seq<RecencyKeyV>, key: RecencyKeyV, rules: PathRules) -> Seq<RecencyKeyV> {
    match key {
        RecencyKeyV::Branch { repo_path, .. } => recorded(
            recorded(entries, RecencyKeyV::Repo { path: repo_path }, rules),
            key,
            rules,
        ),
        RecencyKeyV::Repo { .. } => recorded(entries, key, rules),
    }
}

/// The keys of a saved list, recorded from its end to its start.
pub open spec fn replayed(saved: Seq<RecencyKeyV>, rules: PathRules) -> Seq<RecencyKeyV>
    decreases saved.len(),
{
    if saved.len() == 0 {
        Seq::empty()
    } else {
        recorded(replayed(saved.drop_first(), rules), saved[0], rules)
    }
}

impl RecencyStore {
    pub fn new() -> (store: RecencyStore)
        ensures
            store.deep_view() == Seq::<RecencyKeyV>::empty(),
            forall|rules: PathRules| #[trigger] recency_wf(store.deep_view(), rules),
    {
        let store = RecencyStore { entries: Vec::new() };
        assert(store.entries.deep_view() =~= Seq::empty());
        store
    }

    fn rank(&self, key: &RecencyKey, rules: PathRules) -> (rank: Option<usize>)
        ensures
            match key_position(self.deep_view(), key.deep_view(), rules) {
                Some(at) => rank is Some && rank->0 as nat == at,
                None => rank is None,
            },
    {
        find_key(&self.entries, key, rules)
    }

    /// How many keys were opened later than the repository at a canonical path.
    pub fn repo_rank(&self, path: &PathBuf, rules: PathRules) -> (rank: Option<usize>)
        ensures
            match key_position(self.deep_view(), RecencyKeyV::Repo { path: path@ }, rules) {
                Some(at) => rank is Some && rank->0 as nat == at,
                None => rank is None,
            },
    {
        let key = RecencyKey::repo(path);
        self.rank(&key, rules)
    }

    /// How many keys were opened later than a branch of the repository at a canonical path.
    pub fn branch_rank(&self, repo_path: &PathBuf, branch: &BranchId, rules: PathRules) -> (rank: Option<usize>)
        ensures
            match key_position(
                self.deep_view(),
                RecencyKeyV::Branch { repo_path: repo_path@, branch: branch.deep_view() },
                rules,
            ) {
                Some(at) => rank is Some && rank->0 as nat == at,
                None => rank is None,
            },
    {
        let key = RecencyKey::branch(repo_path, branch.clone());
        self.rank(&key, rules)
    }

    /// Takes in that something was opened.
    #[verifier::loop_isolation(false)]
    pub fn record(&mut self, key: RecencyKey, rules: PathRules)
        ensures
            final(self).deep_view() == recorded(old(self).deep_view(), key.deep_view(), rules),
            distinct_keys(old(self).deep_view(), rules) ==> recency_wf(final(self).deep_view(), rules),
    {
        let ghost all = self.deep_view();
        let ghost wanted = key.deep_view();
        let ghost moved = seq![wanted] + without_key(all, wanted, rules);
        proof {
            if distinct_keys(all, rules) {
                lemma_recorded_wf(all, wanted, rules);
            }
        }
        let mut kept: Vec<RecencyKey> = Vec::new();
        let copy = key.clone();
        kept.push(copy);
        let mut i: usize = 0;
        assert(kept.deep_view() =~= seq![wanted] + without_key(all.take(0), wanted, rules));
        while i < self.entries.len()
            invariant
                i <= self.entries.len(),
                kept.deep_view() == seq![wanted] + without_key(all.take(i as int), wanted, rules),
            decreases self.entries.len() - i,
        {
            let ghost before = kept.deep_view();
            proof {
                assert(all.take(i + 1).drop_last() =~= all.take(i as int));
                assert(all.take(i + 1).last() == self.entries@[i as int].deep_view());
            }
            if !self.entries[i].same(&key, rules) {
                let entry = self.entries[i].clone();
                let ghost added = entry.deep_view();
                kept.push(entry);
                assert(kept.deep_view() =~= before.push(added));
                assert(kept.deep_view() =~= seq![wanted] + without_key(all.take(i + 1), wanted, rules));
            }
            i = i + 1;
        }
        assert(all.take(all.len() as int) =~= all);
        let ghost full = kept.deep_view();
        kept.truncate(MAX_ENTRIES);
        assert(kept.deep_view() =~= recorded(all, wanted, rules)) by {
            if moved.len() <= MAX_ENTRIES {
                assert(kept.deep_view() =~= full);
            } else {
                assert(kept.deep_view() =~= full.take(MAX_ENTRIES as int));
            }
        }
        self.entries = kept;
    }

    /// Takes in that something was opened, and with a branch its repository.
    pub fn record_opening(&mut self, key: RecencyKey, rules: PathRules)
        ensures
            final(self).deep_view() == recorded_opening(old(self).deep_view(), key.deep_view(), rules),
            distinct_keys(old(self).deep_view(), rules) ==> recency_wf(final(self).deep_view(), rules),
    {
        let repo = match &key {
            RecencyKey::Branch { repo_path, .. } => Some(RecencyKey::repo(repo_path)),
            RecencyKey::Repo { .. } => None,
        };
        match repo {
            Some(repo) => self.record(repo, rules),
            None => {},
        }
        self.record(key, rules);
    }

    /// The store that a saved list stands for; each key of it is canonical.
    pub fn from_saved(saved: Vec<RecencyKey>, rules: PathRules) -> (store: RecencyStore)
        ensures
            store.deep_view() == replayed(saved.deep_view(), rules),
            recency_wf(store.deep_view(), rules),
    {
        let ghost all = saved.deep_view();
        let mut store = RecencyStore::new();
        let mut i: usize = saved.len();
        assert(all.skip(i as int) =~= Seq::<RecencyKeyV>::empty());
        while i > 0
            invariant
                i <= saved.len(),
                all == saved.deep_view(),
                store.deep_view() == replayed(all.skip(i as int), rules),
                recency_wf(store.deep_view(), rules),
            decreases i,
        {
            i = i - 1;
            proof {
                assert(all.skip(i as int)[0] == saved@[i as int].deep_view());
                assert(all.skip(i as int).drop_first() =~= all.skip(i + 1));
            }
            store.record(saved[i].clone(), rules);
        }
        assert(all.skip(0) =~= all);
        store
    }
}

impl Default for RecencyStore {
    fn default() -> (store: Self)
        ensures
            store.deep_view() == Seq::<RecencyKeyV>::empty(),
            forall|rules: PathRules| #[trigger] recency_wf(store.deep_view(), rules),
    {
        RecencyStore::new()
    }
}

/// A store that was read, and what went wrong.
#[derive(Debug, PartialEq, Eq)]
pub struct RecencyLoad {
    pub store: RecencyStore,
    pub warnings: Vec<ConfigWarning>,
}

/// The store that a saved file stands for, and what is wrong with the file: a file that is
/// missing or wrong stands for an empty store.
pub fn recency_from_file(file: SavedFile<RecencyKey>, rules: PathRules) -> (loaded: (RecencyStore, Option<String>))
    ensures
        recency_wf(loaded.0.deep_view(), rules),
        loaded.1.deep_view() == file_problem(file, "is corrupt: "@, STATE_VERSION as nat),
        loaded.0.deep_view() == match usable_entries(
            file,
            "is corrupt: "@,
            STATE_VERSION as nat,
        ) {
            Some(entries) => replayed(entries, rules),
            None => Seq::empty(),
        },
{
    let (entries, problem) = read_entries(file, "is corrupt: ", STATE_VERSION);
    match entries {
        Some(entries) => (RecencyStore::from_saved(entries, rules), problem),
        None => (RecencyStore::new(), problem),
    }
}

pub proof fn lemma_without_absent_key(entries: Seq<RecencyKeyV>, key: RecencyKeyV, rules: PathRules)
    requires
        forall|i: int| 0 <= i < entries.len() ==> !same_key(#[trigger] entries[i], key, rules),
    ensures
        without_key(entries, key, rules) == entries,
    decreases entries.len(),
{
    if entries.len() > 0 {
        let before = entries.drop_last();
        assert forall|i: int| 0 <= i < before.len() implies !same_key(#[trigger] before[i], key, rules) by {
            assert(!same_key(entries[i], key, rules));
        }
        lemma_without_absent_key(before, key, rules);
        assert(!same_key(entries[entries.len() - 1], key, rules));
        assert(before.push(entries.last()) =~= entries);
    }
}

/// Saving a store and reading it back gives the same store.
pub proof fn lemma_saved_store_reads_back(entries: Seq<RecencyKeyV>, rules: PathRules)
    requires
        recency_wf(entries, rules),
    ensures
        replayed(entries, rules) == entries,
    decreases entries.len(),
{
    if entries.len() > 0 {
        let rest = entries.drop_first();
        assert forall|i: int, j: int| 0 <= i < j < rest.len() implies !same_key(
            #[trigger] rest[i],
            #[trigger] rest[j],
            rules,
        ) by {
            assert(!same_key(entries[i + 1], entries[j + 1], rules));
        }
        lemma_saved_store_reads_back(rest, rules);
        assert forall|i: int| 0 <= i < rest.len() implies !same_key(
            #[trigger] rest[i],
            entries[0],
            rules,
        ) by {
            assert(!same_key(entries[0], entries[i + 1], rules));
            lemma_same_key_symmetric(entries[0], entries[i + 1], rules);
        }
        lemma_without_absent_key(rest, entries[0], rules);
        assert(seq![entries[0]] + rest =~= entries);
    } else {
        assert(replayed(entries, rules) =~= entries);
    }
}

/// What is loaded where no trusted place for the file is known.
pub fn load_nowhere(warnings: Vec<ConfigWarning>) -> (loaded: RecencyLoad)
    ensures
        loaded.store.deep_view() == Seq::<RecencyKeyV>::empty(),
        loaded.warnings.deep_view() == warnings.deep_view().push(
            "Recency state is unavailable because no trusted state directory could be resolved"@,
        ),
{
    let mut warnings = warnings;
    push_warning(
        &mut warnings,
        owned("Recency state is unavailable because no trusted state directory could be resolved"),
    );
    RecencyLoad { store: RecencyStore::new(), warnings }
}

/// What is said where an opening cannot be recorded, because no trusted place is known or
/// because saving failed.
pub fn record_failed(warnings: Vec<ConfigWarning>, failure: Option<(&PathBuf, &str)>) -> (all: Vec<
    ConfigWarning,
>)
    ensures
        all.deep_view() == warnings.deep_view().push(
            match failure {
                None => {
                    "Could not persist recency state because no trusted state directory could be resolved"@
                },
                Some((path, error)) => "Could not persist recency state at "@ + lossy_text(path@)
                    + (": "@ + error@),
            },
        ),
{
    let mut all = warnings;
    let message = match failure {
        None => owned(
            "Could not persist recency state because no trusted state directory could be resolved",
        ),
        Some((path, error)) => concat3(
            "Could not persist recency state at ",
            path_text(path).as_str(),
            concat(": ", error).as_str(),
        ),
    };
    push_warning(&mut all, message);
    all
}

/// All warnings in one line; nothing where there are none.
pub fn warning_summary(warnings: &Vec<ConfigWarning>) -> (summary: Option<String>)
    ensures
        summary.deep_view() == if warnings.deep_view().len() == 0 {
            None
        } else {
            Some(joined(warnings.deep_view(), "; "@))
        },
{
    let mut messages: Vec<String> = Vec::new();
    let mut i: usize = 0;
    while i < warnings.len()
        invariant
            i <= warnings.len(),
            messages@.len() == i,
            forall|k: int| 0 <= k < i ==> (#[trigger] messages@[k])@ == warnings@[k].message@,
        decreases warnings.len() - i,
    {
        messages.push(warnings[i].message.clone());
        i = i + 1;
    }
    assert(messages.deep_view() =~= warnings.deep_view());
    if warnings.len() == 0 {
        None
    } else {
        Some(join(&messages, "; "))
    }
}

proof fn lemma_position_is(entries: Seq<RecencyKeyV>, key: RecencyKeyV, at: int, rules: PathRules)
    requires
        0 <= at < entries.len(),
        same_key(entries[at], key, rules),
        forall|i: int| 0 <= i < at ==> !same_key(#[trigger] entries[i], key, rules),
    ensures
        key_position(entries, key, rules) == Some(at as nat),
    decreases at,
{
    if at > 0 {
        let rest = entries.drop_first();
        assert(!same_key(entries[0], key, rules));
        assert(rest[at - 1] == entries[at]);
        assert forall|i: int| 0 <= i < at - 1 implies !same_key(#[trigger] rest[i], key, rules) by {
            assert(rest[i] == entries[i + 1]);
        }
        lemma_position_is(rest, key, at - 1, rules);
    }
}

proof fn lemma_position(entries: Seq<RecencyKeyV>, key: RecencyKeyV, rules: PathRules)
    ensures
        match key_position(entries, key, rules) {
            Some(at) => at < entries.len() && same_key(entries[at as int], key, rules) && forall|i: int|
                0 <= i < at ==> !same_key(#[trigger] entries[i], key, rules),
            None => forall|i: int| 0 <= i < entries.len() ==> !same_key(#[trigger] entries[i], key, rules),
        },
    decreases entries.len(),
{
    if entries.len() > 0 {
        let rest = entries.drop_first();
        lemma_position(rest, key, rules);
        if !same_key(entries[0], key, rules) {
            match key_position(rest, key, rules) {
                Some(at) => {
                    assert(entries[at as int + 1] == rest[at as int]);
                    assert forall|i: int| 0 <= i < at + 1 implies !same_key(
                        #[trigger] entries[i],
                        key,
                        rules,
                    ) by {
                        if i > 0 {
                            assert(entries[i] == rest[i - 1]);
                        }
                    }
                },
                None => {
                    assert forall|i: int| 0 <= i < entries.len() implies !same_key(
                        #[trigger] entries[i],
                        key,
                        rules,
                    ) by {
                        if i > 0 {
                            assert(entries[i] == rest[i - 1]);
                        }
                    }
                },
            }
        }
    }
}

/// Taking the one key out that stands for a thing.
proof fn lemma_without_the_key(entries: Seq<RecencyKeyV>, key: RecencyKeyV, at: int, rules: PathRules)
    requires
        0 <= at < entries.len(),
        same_key(entries[at], key, rules),
        forall|i: int|
            0 <= i < entries.len() && i != at ==> !same_key(#[trigger] entries[i], key, rules),
    ensures
        without_key(entries, key, rules) == entries.remove(at),
    decreases entries.len(),
{
    let before = entries.drop_last();
    if at == entries.len() - 1 {
        assert forall|i: int| 0 <= i < before.len() implies !same_key(#[trigger] before[i], key, rules) by {
            assert(before[i] == entries[i]);
        }
        lemma_without_absent_key(before, key, rules);
        assert(entries.remove(at) =~= before);
    } else {
        assert(before[at] == entries[at]);
        assert forall|i: int| 0 <= i < before.len() && i != at implies !same_key(
            #[trigger] before[i],
            key,
            rules,
        ) by {
            assert(before[i] == entries[i]);
        }
        lemma_without_the_key(before, key, at, rules);
        assert(!same_key(entries[entries.len() - 1], key, rules));
        assert(entries.remove(at) =~= before.remove(at).push(entries.last()));
    }
}

/// Recording a key moves every other key that stood before it one place down, and leaves
/// those that stood behind it; a key that falls off the end has no rank.
pub proof fn lemma_recording_shifts_ranks(
    entries: Seq<RecencyKeyV>,
    key: RecencyKeyV,
    other: RecencyKeyV,
    rules: PathRules,
)
    requires
        recency_wf(entries, rules),
        !same_key(key, other, rules),
    ensures
        key_position(recorded(entries, key, rules), other, rules) == match key_position(entries, other, rules) {
            None => None,
            Some(at) => if key_position(entries, key, rules) is Some && key_position(entries, key, rules)->0
                < at {
                Some(at)
            } else if at + 1 < MAX_ENTRIES {
                Some((at + 1) as nat)
            } else {
                None
            },
        },
{
    lemma_position(entries, key, rules);
    lemma_position(entries, other, rules);
    let kept = without_key(entries, key, rules);
    let moved = seq![key] + kept;
    let out = recorded(entries, key, rules);
    match key_position(entries, key, rules) {
        Some(at) => {
            assert forall|i: int| 0 <= i < entries.len() && i != at implies !same_key(
                #[trigger] entries[i],
                key,
                rules,
            ) by {
                if i > at {
                    assert(!same_key(entries[at as int], entries[i], rules));
                }
            }
            lemma_without_the_key(entries, key, at as int, rules);
            assert(kept == entries.remove(at as int));
        },
        None => {
            lemma_without_absent_key(entries, key, rules);
        },
    }
    assert(out[0] == key);
    assert(out.len() <= MAX_ENTRIES);
    assert forall|i: int| 1 <= i < out.len() implies #[trigger] out[i] == kept[i - 1] by {
        assert(out[i] == moved[i]);
    }
    let gone = match key_position(entries, key, rules) {
        Some(at) => at as int,
        None => entries.len() as int,
    };
    assert forall|i: int| 1 <= i < out.len() implies #[trigger] out[i] == entries[if i - 1 < gone {
        i - 1
    } else {
        i
    }] by {
        assert(out[i] == kept[i - 1]);
    }
    match key_position(entries, other, rules) {
        None => {
            assert forall|i: int| 0 <= i < out.len() implies !same_key(#[trigger] out[i], other, rules) by {
                if i > 0 {
                    assert(!same_key(entries[if i - 1 < gone {
                        i - 1
                    } else {
                        i
                    }], other, rules));
                }
            }
            lemma_position(out, other, rules);
        },
        Some(at) => {
            let at = at as int;
            assert(at != gone);
            let place = if gone < at {
                at
            } else {
                at + 1
            };
            if place < out.len() {
                assert(out[place] == entries[at]);
                assert forall|i: int| 0 <= i < place implies !same_key(#[trigger] out[i], other, rules) by {
                    if i > 0 {
                        assert(!same_key(entries[if i - 1 < gone {
                            i - 1
                        } else {
                            i
                        }], other, rules));
                    }
                }
                lemma_position_is(out, other, place, rules);
            } else {
                assert forall|i: int| 0 <= i < out.len() implies !same_key(
                    #[trigger] out[i],
                    other,
                    rules,
                ) by {
                    if i > 0 {
                        assert(!same_key(entries[if i - 1 < gone {
                            i - 1
                        } else {
                            i
                        }], other, rules));
                    }
                }
                lemma_position(out, other, rules);
            }
        },
    }
}

} // verus!
