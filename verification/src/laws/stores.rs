//! What is remembered: what was opened, what is pinned, which folders have workspaces, what is
//! being fetched, and what is to be told.

use crate::folder_bindings::{with_binding, without_folder, workspace_of, FolderBindingV};
use crate::laws::lists::lemma_filter_step;
use crate::path::{same_path, same_place, PathRules};
use crate::pins::{is_pinned, toggled, PinOutcome};
use crate::recency::{recorded, recorded_opening, same_key, without_key, RecencyKeyV, MAX_ENTRIES};
use crate::spawn::{claimed, is_fetching, same_fetch, without_fetch, FetchKeyV};
use crate::toasts::{collapsed, first_warning, with_toast, ToastCategory, ToastKind, ToastV, MAX_RETAINED_TOASTS};
use vstd::prelude::*;

verus! {

proof fn lemma_without_key_is_choice(
    entries: Seq<RecencyKeyV>,
    key: RecencyKeyV,
    rules: PathRules,
)
    ensures
        without_key(entries, key, rules) == entries.filter(
            |other: RecencyKeyV| !same_key(other, key, rules),
        ),
    decreases entries.len(),
{
    lemma_filter_step(entries, |other: RecencyKeyV| !same_key(other, key, rules));
    if entries.len() > 0 {
        lemma_without_key_is_choice(entries.drop_last(), key, rules);
    }
}

/// Two keys are of the same thing where both are of a repository at the same path, or both of
/// the same branch of one.
pub proof fn lemma_keys_of_one_thing(left: RecencyKeyV, right: RecencyKeyV, rules: PathRules)
    ensures
        same_key(left, right, rules) <==> match (left, right) {
            (RecencyKeyV::Repo { path }, RecencyKeyV::Repo { path: other }) => same_path(
                path,
                other,
                rules,
            ),
            (
                RecencyKeyV::Branch { repo_path, branch },
                RecencyKeyV::Branch { repo_path: other, branch: of },
            ) => same_path(repo_path, other, rules) && branch == of,
            _ => false,
        },
{
}

/// What was opened comes first; everything else keeps its order behind it, without an earlier
/// opening of the same thing, and no more is remembered than there is room for.
pub proof fn lemma_what_was_opened_comes_first(
    entries: Seq<RecencyKeyV>,
    key: RecencyKeyV,
    rules: PathRules,
)
    ensures
        ({
            let after = recorded(entries, key, rules);
            let others = entries.filter(|other: RecencyKeyV| !same_key(other, key, rules));
            &&& after.len() > 0
            &&& after[0] == key
            &&& after.len() <= MAX_ENTRIES
            &&& after.len() == MAX_ENTRIES || after.len() == others.len() + 1
            &&& forall|i: int| 1 <= i < after.len() ==> #[trigger] after[i] == others[i - 1]
        }),
{
    lemma_without_key_is_choice(entries, key, rules);
    let others = without_key(entries, key, rules);
    let all = seq![key] + others;
    let after = recorded(entries, key, rules);
    assert forall|i: int| 1 <= i < after.len() implies #[trigger] after[i] == others[i - 1] by {
        assert(after[i] == all[i]);
    }
}

/// Opening a branch remembers the branch first and its repository second.
pub proof fn lemma_branch_comes_before_its_repository(
    entries: Seq<RecencyKeyV>,
    key: RecencyKeyV,
    rules: PathRules,
)
    requires
        key is Branch,
    ensures
        ({
            let after = recorded_opening(entries, key, rules);
            &&& after.len() > 1
            &&& after[0] == key
            &&& after[1] == (RecencyKeyV::Repo { path: key->repo_path })
        }),
{
    let repo = RecencyKeyV::Repo { path: key->repo_path };
    let first = recorded(entries, repo, rules);
    lemma_what_was_opened_comes_first(entries, repo, rules);
    lemma_what_was_opened_comes_first(first, key, rules);
    let keep = |other: RecencyKeyV| !same_key(other, key, rules);
    lemma_first_is_kept(first, keep);
}

proof fn lemma_first_is_kept<T>(all: Seq<T>, keep: spec_fn(T) -> bool)
    requires
        all.len() > 0,
        keep(all[0]),
    ensures
        all.filter(keep).len() > 0,
        all.filter(keep)[0] == all[0],
    decreases all.len(),
{
    lemma_filter_step(all, keep);
    lemma_filter_step(all.drop_last(), keep);
    if all.len() > 1 {
        lemma_first_is_kept(all.drop_last(), keep);
    }
}

/// A thing that is not pinned is pinned behind the others, where there is room; one that is
/// pinned is no longer, and every other pin stays. Where there is no room nothing changes.
pub proof fn lemma_toggling_a_pin(entries: Seq<RecencyKeyV>, key: RecencyKeyV, rules: PathRules)
    ensures
        ({
            let (after, outcome) = toggled(entries, key, rules);
            let was_pinned = exists|i: int|
                0 <= i < entries.len() && same_key(#[trigger] entries[i], key, rules);
            &&& was_pinned ==> outcome == PinOutcome::Unpinned && after == entries.filter(
                |other: RecencyKeyV| !same_key(other, key, rules),
            )
            &&& !was_pinned && entries.len() < crate::pins::MAX_ENTRIES ==> outcome
                == PinOutcome::Pinned && after == entries.push(key)
            &&& !was_pinned && entries.len() >= crate::pins::MAX_ENTRIES ==> outcome
                == PinOutcome::AtCapacity && after == entries
        }),
{
    lemma_without_key_is_choice(entries, key, rules);
    lemma_pinned(entries, key, rules);
}

proof fn lemma_pinned(entries: Seq<RecencyKeyV>, key: RecencyKeyV, rules: PathRules)
    ensures
        is_pinned(entries, key, rules) <==> exists|i: int|
            0 <= i < entries.len() && same_key(#[trigger] entries[i], key, rules),
    decreases entries.len(),
{
    if entries.len() > 0 && !same_key(entries[0], key, rules) {
        let rest = entries.drop_first();
        lemma_pinned(rest, key, rules);
        if is_pinned(rest, key, rules) {
            let i = choose|i: int|
                0 <= i < rest.len() && same_key(#[trigger] rest[i], key, rules);
            assert(entries[i + 1] == rest[i]);
        } else {
            assert forall|i: int| 0 <= i < entries.len() implies !same_key(
                #[trigger] entries[i],
                key,
                rules,
            ) by {
                if i > 0 {
                    assert(entries[i] == rest[i - 1]);
                }
            }
        }
    } else if entries.len() > 0 {
        assert(same_key(entries[0], key, rules));
    }
}

proof fn lemma_without_folder_is_choice(
    bindings: Seq<FolderBindingV>,
    folder: Seq<u8>,
    rules: PathRules,
)
    ensures
        without_folder(bindings, folder, rules) == bindings.filter(
            |binding: FolderBindingV| !same_place(binding.folder, folder, rules),
        ),
    decreases bindings.len(),
{
    lemma_filter_step(
        bindings,
        |binding: FolderBindingV| !same_place(binding.folder, folder, rules),
    );
    if bindings.len() > 0 {
        lemma_without_folder_is_choice(bindings.drop_last(), folder, rules);
    }
}

/// Binding a folder replaces what it was bound to and leaves the other folders alone; a folder
/// that is given up takes only its own binding with it.
pub proof fn lemma_folder_has_one_binding(
    bindings: Seq<FolderBindingV>,
    added: FolderBindingV,
    rules: PathRules,
)
    ensures
        with_binding(bindings, added, rules) == bindings.filter(
            |binding: FolderBindingV| !same_place(binding.folder, added.folder, rules),
        ).push(added),
        without_folder(bindings, added.folder, rules) == bindings.filter(
            |binding: FolderBindingV| !same_place(binding.folder, added.folder, rules),
        ),
{
    lemma_without_folder_is_choice(bindings, added.folder, rules);
}

/// A folder has the workspace of the first binding of its place.
pub proof fn lemma_folder_has_its_workspace(
    bindings: Seq<FolderBindingV>,
    folder: Seq<u8>,
    rules: PathRules,
)
    ensures
        match workspace_of(bindings, folder, rules) {
            Some(workspace_id) => exists|i: int|
                0 <= i < bindings.len() && same_place(
                    (#[trigger] bindings[i]).folder,
                    folder,
                    rules,
                ) && bindings[i].workspace_id == workspace_id,
            None => forall|i: int|
                0 <= i < bindings.len() ==> !same_place(
                    (#[trigger] bindings[i]).folder,
                    folder,
                    rules,
                ),
        },
    decreases bindings.len(),
{
    if bindings.len() > 0 {
        if same_place(bindings[0].folder, folder, rules) {
            assert(bindings[0].workspace_id == workspace_of(bindings, folder, rules)->0);
        } else {
            let rest = bindings.drop_first();
            lemma_folder_has_its_workspace(rest, folder, rules);
            match workspace_of(rest, folder, rules) {
                Some(workspace_id) => {
                    let i = choose|i: int|
                        0 <= i < rest.len() && same_place(
                            (#[trigger] rest[i]).folder,
                            folder,
                            rules,
                        ) && rest[i].workspace_id == workspace_id;
                    assert(bindings[i + 1] == rest[i]);
                },
                None => {
                    assert forall|i: int| 0 <= i < bindings.len() implies !same_place(
                        (#[trigger] bindings[i]).folder,
                        folder,
                        rules,
                    ) by {
                        if i > 0 {
                            assert(bindings[i] == rest[i - 1]);
                        }
                    }
                },
            }
        }
    }
}

/// Of remotes that are to be fetched those are taken that are not being fetched yet, in their
/// order, and from then on they are; none is taken that runs, and what runs goes on.
pub proof fn lemma_only_idle_remotes_are_fetched(
    keys: Seq<FetchKeyV>,
    repo_path: Seq<u8>,
    remotes: Seq<Seq<char>>,
    rules: PathRules,
)
    ensures
        ({
            let (after, taken) = claimed(keys, repo_path, remotes, rules);
            &&& after.len() == keys.len() + taken.len()
            &&& forall|i: int| 0 <= i < keys.len() ==> #[trigger] after[i] == keys[i]
            &&& forall|i: int|
                0 <= i < taken.len() ==> after[keys.len() + i] == (FetchKeyV {
                    repo_path,
                    remote: #[trigger] taken[i],
                }) && remotes.contains(taken[i]) && !is_fetching(
                    keys,
                    FetchKeyV { repo_path, remote: taken[i] },
                    rules,
                )
            &&& forall|i: int|
                0 <= i < remotes.len() && !is_fetching(
                    keys,
                    FetchKeyV { repo_path, remote: remotes[i] },
                    rules,
                ) ==> taken.contains(#[trigger] remotes[i])
        }),
    decreases remotes.len(),
{
    if remotes.len() > 0 {
        let before = remotes.drop_last();
        let last = remotes.last();
        let key = FetchKeyV { repo_path, remote: last };
        lemma_only_idle_remotes_are_fetched(keys, repo_path, before, rules);
        let (running, some) = claimed(keys, repo_path, before, rules);
        let (after, taken) = claimed(keys, repo_path, remotes, rules);
        assert forall|i: int| 0 <= i < taken.len() implies after[keys.len() + i] == (FetchKeyV {
            repo_path,
            remote: #[trigger] taken[i],
        }) && remotes.contains(taken[i]) && !is_fetching(
            keys,
            FetchKeyV { repo_path, remote: taken[i] },
            rules,
        ) by {
            if i < some.len() {
                assert(taken[i] == some[i]);
                let k = choose|k: int| 0 <= k < before.len() && before[k] == some[i];
                assert(remotes[k] == taken[i]);
            } else {
                assert(remotes[remotes.len() - 1] == taken[i]);
                if is_fetching(keys, key, rules) {
                    let k = choose|k: int|
                        0 <= k < keys.len() && same_fetch(#[trigger] keys[k], key, rules);
                    assert(running[k] == keys[k]);
                    assert(is_fetching(running, key, rules));
                }
            }
        }
        assert forall|i: int|
            0 <= i < remotes.len() && !is_fetching(
                keys,
                FetchKeyV { repo_path, remote: remotes[i] },
                rules,
            ) implies taken.contains(#[trigger] remotes[i]) by {
            if i < before.len() {
                assert(before[i] == remotes[i]);
                let k = choose|k: int| 0 <= k < some.len() && some[k] == before[i];
                assert(taken[k] == remotes[i]);
            } else if is_fetching(running, key, rules) {
                let k = choose|k: int|
                    0 <= k < running.len() && same_fetch(#[trigger] running[k], key, rules);
                if k < keys.len() {
                    assert(running[k] == keys[k]);
                    assert(is_fetching(keys, key, rules));
                } else {
                    assert(running[k] == (FetchKeyV {
                        repo_path,
                        remote: some[k - keys.len()],
                    }));
                    assert(taken[k - keys.len()] == last);
                }
            } else {
                assert(taken[taken.len() - 1] == last);
            }
        }
    }
}

/// A fetch that is over no longer runs, and every other one goes on.
pub proof fn lemma_only_the_fetch_that_is_over_ends(
    keys: Seq<FetchKeyV>,
    key: FetchKeyV,
    rules: PathRules,
)
    ensures
        without_fetch(keys, key, rules) == keys.filter(
            |other: FetchKeyV| !(same_path(other.repo_path, key.repo_path, rules) && other.remote
                == key.remote),
        ),
    decreases keys.len(),
{
    lemma_filter_step(
        keys,
        |other: FetchKeyV| !(same_path(other.repo_path, key.repo_path, rules) && other.remote
            == key.remote),
    );
    if keys.len() > 0 {
        lemma_only_the_fetch_that_is_over_ends(keys.drop_last(), key, rules);
    }
}

/// Whether a notification waits.
pub open spec fn waits(toasts: Seq<ToastV>, message: Seq<char>) -> bool {
    exists|i: int| 0 <= i < toasts.len() && (#[trigger] toasts[i]).message == message
}

/// An error that has words is told: it waits behind the others, as an error, unless it waits
/// already. A warning is told where there is room, or where it can take the place of a warning;
/// it never takes the place of an error. What is not pushed out keeps its order.
pub proof fn lemma_errors_are_told(
    toasts: Seq<ToastV>,
    kind: ToastKind,
    message: Seq<char>,
    category: ToastCategory,
)
    requires
        toasts.len() <= MAX_RETAINED_TOASTS,
    ensures
        ({
            let after = with_toast(toasts, kind, message, category);
            let text = collapsed(message);
            &&& after.len() <= MAX_RETAINED_TOASTS
            &&& text.len() == 0 || waits(toasts, text) ==> after == toasts
            &&& text.len() > 0 && kind == ToastKind::Error ==> waits(after, text)
            &&& text.len() > 0 && toasts.len() < MAX_RETAINED_TOASTS ==> waits(after, text)
            &&& text.len() > 0 && !waits(toasts, text) && waits(after, text) ==> after.last()
                == (ToastV { kind, message: text, category })
            &&& text.len() > 0 && !waits(toasts, text) && toasts.len() < MAX_RETAINED_TOASTS
                ==> after.drop_last() == toasts
            &&& text.len() > 0 && !waits(toasts, text) && toasts.len() == MAX_RETAINED_TOASTS
                && waits(after, text) ==> exists|gone: int|
                0 <= gone < toasts.len() && after.drop_last() == #[trigger] toasts.remove(gone) && (
                toasts[gone].kind == ToastKind::Error ==> kind == ToastKind::Error && forall|
                    i: int,
                |
                    0 <= i < toasts.len() ==> (#[trigger] toasts[i]).kind == ToastKind::Error)
        }),
{
    let after = with_toast(toasts, kind, message, category);
    let text = collapsed(message);
    let toast = ToastV { kind, message: text, category };
    lemma_first_warning(toasts);
    if text.len() > 0 && !waits(toasts, text) {
        if toasts.len() < MAX_RETAINED_TOASTS {
            assert(after.drop_last() =~= toasts);
            assert(after[after.len() - 1].message == text);
        } else {
            match first_warning(toasts) {
                Some(index) => {
                    assert(after.drop_last() =~= toasts.remove(index));
                    assert(after[after.len() - 1].message == text);
                },
                None => {
                    if kind == ToastKind::Error {
                        assert(after.drop_last() =~= toasts.remove(0));
                        assert(after[after.len() - 1].message == text);
                    }
                },
            }
        }
    }
}

proof fn lemma_first_warning(toasts: Seq<ToastV>)
    ensures
        match first_warning(toasts) {
            Some(index) => 0 <= index < toasts.len() && toasts[index].kind == ToastKind::Warning,
            None => forall|i: int|
                0 <= i < toasts.len() ==> (#[trigger] toasts[i]).kind == ToastKind::Error,
        },
    decreases toasts.len(),
{
    if toasts.len() > 0 {
        let before = toasts.drop_last();
        lemma_first_warning(before);
        assert forall|i: int| 0 <= i < before.len() implies #[trigger] toasts[i] == before[i] by {}
    }
}

} // verus!
