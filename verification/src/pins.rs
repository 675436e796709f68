//! Repositories and branches that the user pinned.

use crate::branches::BranchId;
use crate::config::{push_warning, ConfigWarning};
use crate::path::{PathBuf, PathRules};
use crate::recency::{distinct_keys, find_key, key_position, same_key, without_key, RecencyKey, RecencyKeyV};
use crate::state_store::{file_problem, read_entries, usable_entries, SavedFile};
use crate::text::{concat3, decode_lossy, lossy_text, owned};
use vstd::prelude::*;
use vstd::string::*;

verus! {

pub const MAX_ENTRIES: usize = 200;

pub const STATE_VERSION: u32 = 1;

#[derive(Debug, Clone, Copy, PartialEq, Eq, Structural)]
pub enum PinOutcome {
    Pinned,
    Unpinned,
    AtCapacity,
}

/// How an attempt to pin or unpin ended.
#[derive(Debug, PartialEq, Eq)]
pub enum PinToggle {
    Applied { outcome: PinOutcome, warnings: Vec<ConfigWarning> },
    Failed { warnings: Vec<ConfigWarning> },
}

/// What is pinned; no two of the entries stand for the same thing.
#[derive(Debug, PartialEq, Eq)]
pub struct PinStore {
    pub entries: Vec<RecencyKey>,
    pub path: Option<PathBuf>,
}

/// A store that was read, and what went wrong.
#[derive(Debug, PartialEq, Eq)]
pub struct PinLoad {
    pub store: PinStore,
    pub warnings: Vec<ConfigWarning>,
}

pub open spec fn is_pinned(entries: Seq<RecencyKeyV>, key: RecencyKeyV, rules: PathRules) -> bool {
    key_position(entries, key, rules) is Some
}

/// What toggling a pin does: a pin that is there goes, another one comes where there is
/// room.
pub open spec fn toggled(entries: Seq<RecencyKeyV>, key: RecencyKeyV, rules: PathRules) -> (
    Seq<RecencyKeyV>,
    PinOutcome,
) {
    if is_pinned(entries, key, rules) {
        (without_key(entries, key, rules), PinOutcome::Unpinned)
    } else if entries.len() >= MAX_ENTRIES {
        (entries, PinOutcome::AtCapacity)
    } else {
        (entries.push(key), PinOutcome::Pinned)
    }
}

/// The pins of a saved list: each thing once, and not more than are kept.
pub open spec fn collected(saved: Seq<RecencyKeyV>, rules: PathRules) -> Seq<RecencyKeyV>
    decreases saved.len(),
{
    if saved.len() == 0 {
        Seq::empty()
    } else {
        let before = collected(saved.drop_last(), rules);
        if before.len() >= MAX_ENTRIES || is_pinned(before, saved.last(), rules) {
            before
        } else {
            before.push(saved.last())
        }
    }
}

proof fn lemma_absent_key(entries: Seq<RecencyKeyV>, key: RecencyKeyV, rules: PathRules)
    ensures
        !is_pinned(entries, key, rules) <==> forall|i: int|
            0 <= i < entries.len() ==> !same_key(#[trigger] entries[i], key, rules),
    decreases entries.len(),
{
    if entries.len() > 0 {
        let rest = entries.drop_first();
        lemma_absent_key(rest, key, rules);
        if !same_key(entries[0], key, rules) {
            if !is_pinned(rest, key, rules) {
                assert forall|i: int| 0 <= i < entries.len() implies !same_key(
                    #[trigger] entries[i],
                    key,
                    rules,
                ) by {
                    if i > 0 {
                        assert(!same_key(rest[i - 1], key, rules));
                    }
                }
            } else {
                let i = choose|i: int| 0 <= i < rest.len() && same_key(#[trigger] rest[i], key, rules);
                assert(same_key(entries[i + 1], key, rules));
            }
        } else {
            assert(same_key(entries[0], key, rules));
        }
    }
}

proof fn lemma_push_distinct(entries: Seq<RecencyKeyV>, key: RecencyKeyV, rules: PathRules)
    requires
        distinct_keys(entries, rules),
        !is_pinned(entries, key, rules),
    ensures
        distinct_keys(entries.push(key), rules),
{
    lemma_absent_key(entries, key, rules);
    let out = entries.push(key);
    assert forall|i: int, j: int| 0 <= i < j < out.len() implies !same_key(
        #[trigger] out[i],
        #[trigger] out[j],
        rules,
    ) by {
        if j < entries.len() {
            assert(!same_key(entries[i], entries[j], rules));
        } else {
            assert(!same_key(entries[i], key, rules));
        }
    }
}

proof fn lemma_removed(entries: Seq<RecencyKeyV>, key: RecencyKeyV, rules: PathRules)
    ensures
        !is_pinned(without_key(entries, key, rules), key, rules),
        distinct_keys(entries, rules) ==> distinct_keys(without_key(entries, key, rules), rules),
{
    crate::recency::lemma_without_key(entries, key, rules);
    lemma_absent_key(without_key(entries, key, rules), key, rules);
}

/// Toggling flips whether a thing is pinned, unless there is no room for one more pin.
pub proof fn lemma_toggle_flips(entries: Seq<RecencyKeyV>, key: RecencyKeyV, rules: PathRules)
    ensures
        toggled(entries, key, rules).1 == PinOutcome::Pinned ==> !is_pinned(entries, key, rules) && is_pinned(
            toggled(entries, key, rules).0,
            key,
            rules,
        ),
        toggled(entries, key, rules).1 == PinOutcome::Unpinned ==> is_pinned(entries, key, rules) && !is_pinned(
            toggled(entries, key, rules).0,
            key,
            rules,
        ),
        toggled(entries, key, rules).1 == PinOutcome::AtCapacity ==> toggled(entries, key, rules).0 == entries,
        distinct_keys(entries, rules) ==> distinct_keys(toggled(entries, key, rules).0, rules),
{
    lemma_removed(entries, key, rules);
    let pushed = entries.push(key);
    lemma_absent_key(pushed, key, rules);
    lemma_key_same_as_itself(key, rules);
    assert(pushed[entries.len() as int] == key);
    assert(same_key(pushed[entries.len() as int], key, rules));
    if distinct_keys(entries, rules) && !is_pinned(entries, key, rules) {
        lemma_push_distinct(entries, key, rules);
    }
}

proof fn lemma_key_same_as_itself(key: RecencyKeyV, rules: PathRules)
    ensures
        same_key(key, key, rules),
{
}

/// Pinning something and toggling it again leaves the pins as they were.
pub proof fn lemma_toggle_twice(entries: Seq<RecencyKeyV>, key: RecencyKeyV, rules: PathRules)
    requires
        !is_pinned(entries, key, rules),
        entries.len() < MAX_ENTRIES,
    ensures
        toggled(toggled(entries, key, rules).0, key, rules) == (entries, PinOutcome::Unpinned),
{
    lemma_toggle_flips(entries, key, rules);
    lemma_absent_key(entries, key, rules);
    lemma_key_same_as_itself(key, rules);
    let pushed = entries.push(key);
    assert(pushed.drop_last() =~= entries);
    crate::recency::lemma_without_absent_key(entries, key, rules);
}

proof fn lemma_collected(saved: Seq<RecencyKeyV>, rules: PathRules)
    ensures
        distinct_keys(collected(saved, rules), rules),
        collected(saved, rules).len() <= MAX_ENTRIES,
    decreases saved.len(),
{
    if saved.len() > 0 {
        lemma_collected(saved.drop_last(), rules);
        let before = collected(saved.drop_last(), rules);
        if !(before.len() >= MAX_ENTRIES || is_pinned(before, saved.last(), rules)) {
            lemma_push_distinct(before, saved.last(), rules);
        }
    }
}

impl PinStore {
    pub fn new() -> (store: PinStore)
        ensures
            store.entries.deep_view() == Seq::<RecencyKeyV>::empty(),
            store.entries@.len() == 0,
            store.path is None,
    {
        let store = PinStore { entries: Vec::new(), path: None };
        assert(store.entries.deep_view() =~= Seq::empty());
        store
    }

    pub fn is_empty(&self) -> (answer: bool)
        ensures
            answer == (self.entries.deep_view().len() == 0),
    {
        self.entries.len() == 0
    }

    pub fn repo_is_pinned(&self, path: &PathBuf, rules: PathRules) -> (answer: bool)
        ensures
            answer == is_pinned(self.entries.deep_view(), RecencyKeyV::Repo { path: path@ }, rules),
    {
        let key = RecencyKey::repo(path);
        find_key(&self.entries, &key, rules).is_some()
    }

    pub fn branch_is_pinned(&self, repo_path: &PathBuf, branch: &BranchId, rules: PathRules) -> (answer: bool)
        ensures
            answer == is_pinned(
                self.entries.deep_view(),
                RecencyKeyV::Branch { repo_path: repo_path@, branch: branch.deep_view() },
                rules,
            ),
    {
        let key = RecencyKey::branch(repo_path, branch.clone());
        find_key(&self.entries, &key, rules).is_some()
    }

    /// Pins what is not pinned and unpins what is.
    #[verifier::loop_isolation(false)]
    pub fn apply_toggle(&mut self, key: RecencyKey, rules: PathRules) -> (outcome: PinOutcome)
        ensures
            (final(self).entries.deep_view(), outcome) == toggled(
                old(self).entries.deep_view(),
                key.deep_view(),
                rules,
            ),
            final(self).path == old(self).path,
            distinct_keys(old(self).entries.deep_view(), rules) ==> distinct_keys(
                final(self).entries.deep_view(),
                rules,
            ),
    {
        let ghost all = self.entries.deep_view();
        let ghost wanted = key.deep_view();
        proof {
            lemma_toggle_flips(all, wanted, rules);
        }
        if find_key(&self.entries, &key, rules).is_some() {
            let mut kept: Vec<RecencyKey> = Vec::new();
            let mut i: usize = 0;
            assert(kept.deep_view() =~= without_key(all.take(0), wanted, rules));
            while i < self.entries.len()
                invariant
                    i <= self.entries.len(),
                    kept.deep_view() == without_key(all.take(i as int), wanted, rules),
                decreases self.entries.len() - i,
            {
                let ghost before = kept.deep_view();
                proof {
                    assert(all.take(i + 1).drop_last() =~= all.take(i as int));
                    assert(all.take(i + 1).last() == self.entries@[i as int].deep_view());
                }
                if !self.entries[i].same(&key, rules) {
                    let entry = self.entries[i].clone();
                    let ghost added = entry.deep_view();
                    kept.push(entry);
                    assert(kept.deep_view() =~= before.push(added));
                }
                i = i + 1;
            }
            assert(all.take(all.len() as int) =~= all);
            self.entries = kept;
            return PinOutcome::Unpinned;
        }
        if self.entries.len() >= MAX_ENTRIES {
            return PinOutcome::AtCapacity;
        }
        self.entries.push(key);
        assert(self.entries.deep_view() =~= all.push(wanted));
        PinOutcome::Pinned
    }

    /// Toggles a pin of a store that is not saved anywhere.
    pub fn toggle(&mut self, key: RecencyKey, rules: PathRules) -> (toggle: PinToggle)
        ensures
            toggle is Applied,
            (final(self).entries.deep_view(), toggle->Applied_outcome) == toggled(
                old(self).entries.deep_view(),
                key.deep_view(),
                rules,
            ),
            toggle->Applied_warnings@.len() == 0,
            final(self).path == old(self).path,
    {
        let outcome = self.apply_toggle(key, rules);
        PinToggle::Applied { outcome, warnings: Vec::new() }
    }

    /// Toggles a pin of a store that was read from its file, whose reading gave `warnings`;
    /// says whether the file has to be written.
    pub fn toggle_stored(&mut self, stored: PinStore, key: RecencyKey, warnings: Vec<ConfigWarning>, rules: PathRules) -> (result: (PinToggle, bool))
        ensures
            result.0 is Applied,
            (final(self).entries.deep_view(), result.0->Applied_outcome) == toggled(
                stored.entries.deep_view(),
                key.deep_view(),
                rules,
            ),
            result.0->Applied_warnings == warnings,
            final(self).path == old(self).path,
            result.1 == (result.0->Applied_outcome != PinOutcome::AtCapacity),
    {
        let mut stored = stored;
        let outcome = stored.apply_toggle(key, rules);
        self.entries = stored.entries;
        (PinToggle::Applied { outcome, warnings }, outcome != PinOutcome::AtCapacity)
    }

    /// The pins of a saved list; each key of it is canonical.
    #[verifier::loop_isolation(false)]
    pub fn from_saved(saved: Vec<RecencyKey>, rules: PathRules) -> (store: PinStore)
        ensures
            store.entries.deep_view() == collected(saved.deep_view(), rules),
            store.path is None,
            distinct_keys(store.entries.deep_view(), rules),
            store.entries@.len() <= MAX_ENTRIES,
    {
        let ghost all = saved.deep_view();
        proof {
            lemma_collected(all, rules);
        }
        let mut entries: Vec<RecencyKey> = Vec::new();
        let mut i: usize = 0;
        assert(entries.deep_view() =~= collected(all.take(0), rules));
        while i < saved.len()
            invariant
                i <= saved.len(),
                entries.deep_view() == collected(all.take(i as int), rules),
            decreases saved.len() - i,
        {
            let ghost before = entries.deep_view();
            proof {
                assert(all.take(i + 1).drop_last() =~= all.take(i as int));
                assert(all.take(i + 1).last() == saved@[i as int].deep_view());
            }
            if entries.len() < MAX_ENTRIES && find_key(&entries, &saved[i], rules).is_none() {
                let entry = saved[i].clone();
                let ghost added = entry.deep_view();
                entries.push(entry);
                assert(entries.deep_view() =~= before.push(added));
            }
            i = i + 1;
        }
        assert(all.take(all.len() as int) =~= all);
        PinStore { entries, path: None }
    }
}

impl Default for PinStore {
    fn default() -> (store: Self)
        ensures
            store.entries.deep_view() == Seq::<RecencyKeyV>::empty(),
            store.path is None,
    {
        PinStore::new()
    }
}

/// The pins that a saved file stands for, and what is wrong with the file: a file that is
/// missing or wrong stands for no pins.
pub fn pins_from_file(file: SavedFile<RecencyKey>, rules: PathRules) -> (loaded: (PinStore, Option<String>))
    ensures
        distinct_keys(loaded.0.entries.deep_view(), rules),
        loaded.1.deep_view() == file_problem(file, "is corrupt: "@, STATE_VERSION as nat),
        loaded.0.entries.deep_view() == match usable_entries(
            file,
            "is corrupt: "@,
            STATE_VERSION as nat,
        ) {
            Some(entries) => collected(entries, rules),
            None => Seq::empty(),
        },
{
    let (entries, problem) = read_entries(file, "is corrupt: ", STATE_VERSION);
    match entries {
        Some(entries) => (PinStore::from_saved(entries, rules), problem),
        None => (PinStore::new(), problem),
    }
}

/// The outcome where the pins could not be saved: nothing changes.
pub fn failed_toggle(path: &PathBuf, error: &str) -> (toggle: PinToggle)
    ensures
        toggle is Failed,
        toggle->Failed_warnings.deep_view() == seq![
            "Could not persist pin state at "@ + lossy_text(path@) + ": "@ + error@,
        ],
{
    let shown = decode_lossy(path.bytes.as_slice());
    let mut message = concat3("Could not persist pin state at ", shown.as_str(), ": ");
    message.push_str(error);
    let mut warnings: Vec<ConfigWarning> = Vec::new();
    crate::config::push_warning(&mut warnings, message);
    assert(warnings.deep_view() =~= seq![
        "Could not persist pin state at "@ + lossy_text(path@) + ": "@ + error@,
    ]);
    PinToggle::Failed { warnings }
}

/// What is loaded where no trusted place for the file is known.
pub fn load_nowhere(warnings: Vec<ConfigWarning>) -> (loaded: PinLoad)
    ensures
        loaded.store.entries.deep_view() == Seq::<RecencyKeyV>::empty(),
        loaded.store.path is None,
        loaded.warnings.deep_view() == warnings.deep_view().push(
            "Pin state is unavailable because no trusted state directory could be resolved"@,
        ),
{
    let mut warnings = warnings;
    push_warning(
        &mut warnings,
        owned("Pin state is unavailable because no trusted state directory could be resolved"),
    );
    PinLoad { store: PinStore::new(), warnings }
}

/// Pins that were saved are read back as they were.
pub proof fn lemma_saved_pins_read_back(entries: Seq<RecencyKeyV>, rules: PathRules)
    requires
        distinct_keys(entries, rules),
        entries.len() <= MAX_ENTRIES,
    ensures
        collected(entries, rules) == entries,
    decreases entries.len(),
{
    if entries.len() > 0 {
        let before = entries.drop_last();
        assert forall|i: int, j: int| 0 <= i < j < before.len() implies !same_key(
            #[trigger] before[i],
            #[trigger] before[j],
            rules,
        ) by {
            assert(!same_key(entries[i], entries[j], rules));
        }
        lemma_saved_pins_read_back(before, rules);
        assert forall|i: int| 0 <= i < before.len() implies !same_key(
            #[trigger] before[i],
            entries.last(),
            rules,
        ) by {
            assert(!same_key(entries[i], entries[entries.len() - 1], rules));
        }
        lemma_absent_key(before, entries.last(), rules);
        assert(before.push(entries.last()) =~= entries);
    }
}

} // verus!
