//! The search for repositories.

use crate::git::scan::{has_path, EntryReport, ScanTargetV, ScanV};
use crate::laws::texts::{holds, lemma_holds_middle};
use crate::path::{same_path, PathBuf};
use vstd::prelude::*;
use vstd::string::*;

verus! {

/// A plain directory that is found where there are levels left to look at waits to be looked
/// into itself, with one level less; on the last level it does not. Nothing else changes.
pub proof fn lemma_plain_directories_are_looked_into(
    scan: ScanV,
    target: ScanTargetV,
    path: PathBuf,
)
    ensures
        ({
            let after = scan.after(target, EntryReport::PlainDirectory { path });
            &&& after.visited == scan.visited
            &&& after.warnings == scan.warnings
            &&& after.path_rules == scan.path_rules
            &&& target.remaining_depth > 1 ==> after.pending.len() == scan.pending.len() + 1
                && after.pending.drop_last() == scan.pending && after.pending.last().path == path@
                && after.pending.last().remaining_depth == target.remaining_depth - 1
                && !after.pending.last().is_search_root
            &&& target.remaining_depth <= 1 ==> after.pending == scan.pending
        }),
{
    let after = scan.after(target, EntryReport::PlainDirectory { path });
    if target.remaining_depth > 1 {
        assert(after.pending.drop_last() =~= scan.pending);
    }
}

/// A repository counts as found from then on, and only it is added; it is not looked into, and
/// nothing is warned of.
pub proof fn lemma_repositories_are_found_and_not_entered(
    scan: ScanV,
    target: ScanTargetV,
    root: PathBuf,
)
    ensures
        ({
            let after = scan.after(target, EntryReport::Repository { root });
            &&& after.pending == scan.pending
            &&& after.warnings == scan.warnings
            &&& has_path(after.visited, root@, scan.path_rules)
            &&& has_path(scan.visited, root@, scan.path_rules) ==> after.visited == scan.visited
            &&& !has_path(scan.visited, root@, scan.path_rules) ==> after.visited
                == scan.visited.push(root@)
        }),
{
    let after = scan.after(target, EntryReport::Repository { root });
    if !has_path(scan.visited, root@, scan.path_rules) {
        assert(same_path(after.visited[scan.visited.len() as int], root@, scan.path_rules));
    }
}

/// What cannot be read is warned of, once, with its reason, and the search goes on as if the
/// entry were not there; a file is passed over in silence.
pub proof fn lemma_problems_are_warned_of(scan: ScanV, target: ScanTargetV, report: EntryReport)
    requires
        !(report is Repository),
        !(report is PlainDirectory),
    ensures
        ({
            let after = scan.after(target, report);
            &&& after.pending == scan.pending
            &&& after.visited == scan.visited
            &&& report is NotDirectory ==> after.warnings == scan.warnings
            &&& !(report is NotDirectory) ==> after.warnings.len() == scan.warnings.len() + 1
                && after.warnings.drop_last() == scan.warnings && holds(
                after.warnings.last().message,
                match report {
                    EntryReport::Unreadable { error } => error@,
                    EntryReport::Uninspected { error, .. } => error@,
                    EntryReport::GitUnknown { error, .. } => error@,
                    EntryReport::Unresolved { error, .. } => error@,
                    _ => Seq::empty(),
                },
            )
            &&& report matches EntryReport::Unreadable { .. } ==> after.warnings.last().path
                == target.path
            &&& report matches EntryReport::Uninspected { path, .. } ==> after.warnings.last().path
                == path@
            &&& report matches EntryReport::Unresolved { path, .. } ==> after.warnings.last().path
                == path@
        }),
{
    let after = scan.after(target, report);
    let none = Seq::<char>::empty();
    match report {
        EntryReport::Unreadable { error } => {
            let start = "failed to read directory entry: "@;
            lemma_holds_middle(start, error@, none);
            assert(start + error@ + none =~= start + error@);
        },
        EntryReport::Uninspected { error, .. } => {
            let start = "failed to inspect directory entry: "@;
            lemma_holds_middle(start, error@, none);
            assert(start + error@ + none =~= start + error@);
        },
        EntryReport::GitUnknown { error, .. } => {
            let start = "failed to inspect .git entry: "@;
            lemma_holds_middle(start, error@, none);
            assert(start + error@ + none =~= start + error@);
        },
        EntryReport::Unresolved { error, .. } => {
            let start = "failed to resolve repository path: "@;
            lemma_holds_middle(start, error@, none);
            assert(start + error@ + none =~= start + error@);
        },
        _ => {},
    }
    if !(report is NotDirectory) {
        assert(after.warnings.drop_last() =~= scan.warnings);
    }
}

/// What a file system reports of the entries of a directory.
pub type Listing = spec_fn(Seq<u8>) -> Seq<EntryReport>;

/// A search that takes in the entries of a directory one after the other.
pub open spec fn after_all(scan: ScanV, target: ScanTargetV, reports: Seq<EntryReport>) -> ScanV
    decreases reports.len(),
{
    if reports.len() == 0 {
        scan
    } else {
        after_all(scan.after(target, reports[0]), target, reports.drop_first())
    }
}

/// A search that has looked into the directory that it takes next.
pub open spec fn after_directory(scan: ScanV, listing: Listing) -> ScanV {
    let target = scan.pending.last();
    after_all(
        ScanV { pending: scan.pending.drop_last(), ..scan },
        target,
        listing(target.path),
    )
}

/// A search after it has looked into `steps` directories, or all that there were.
pub open spec fn after_steps(scan: ScanV, listing: Listing, steps: nat) -> ScanV
    decreases steps,
{
    if steps == 0 || scan.pending.len() == 0 {
        scan
    } else {
        after_steps(after_directory(scan, listing), listing, (steps - 1) as nat)
    }
}

/// The directories that a search looks into, in their order.
pub open spec fn looked_into(scan: ScanV, listing: Listing, steps: nat) -> Seq<ScanTargetV>
    decreases steps,
{
    if steps == 0 || scan.pending.len() == 0 {
        Seq::empty()
    } else {
        seq![scan.pending.last()] + looked_into(
            after_directory(scan, listing),
            listing,
            (steps - 1) as nat,
        )
    }
}

proof fn lemma_reports_only_add(scan: ScanV, target: ScanTargetV, reports: Seq<EntryReport>)
    ensures
        ({
            let after = after_all(scan, target, reports);
            &&& scan.pending.len() <= after.pending.len()
            &&& after.pending.take(scan.pending.len() as int) == scan.pending
            &&& after.path_rules == scan.path_rules
            &&& forall|path: Seq<u8>|
                has_path(scan.visited, path, scan.path_rules) ==> #[trigger] has_path(
                    after.visited,
                    path,
                    scan.path_rules,
                )
        }),
    decreases reports.len(),
{
    if reports.len() == 0 {
        assert(scan.pending.take(scan.pending.len() as int) =~= scan.pending);
    } else {
        let next = scan.after(target, reports[0]);
        lemma_reports_only_add(next, target, reports.drop_first());
        let after = after_all(scan, target, reports);
        assert(next.pending.take(scan.pending.len() as int) =~= scan.pending);
        assert(after.pending.take(scan.pending.len() as int) =~= after.pending.take(
            next.pending.len() as int,
        ).take(scan.pending.len() as int));
        assert forall|path: Seq<u8>|
            has_path(scan.visited, path, scan.path_rules) implies #[trigger] has_path(
            after.visited,
            path,
            scan.path_rules,
        ) by {
            let i = choose|i: int|
                0 <= i < scan.visited.len() && same_path(
                    #[trigger] scan.visited[i],
                    path,
                    scan.path_rules,
                );
            assert(next.visited[i] == scan.visited[i]);
            assert(has_path(next.visited, path, scan.path_rules));
        }
    }
}

proof fn lemma_reports_are_taken_in(
    scan: ScanV,
    target: ScanTargetV,
    reports: Seq<EntryReport>,
    at: int,
)
    requires
        0 <= at < reports.len(),
    ensures
        ({
            let after = after_all(scan, target, reports);
            match reports[at] {
                EntryReport::PlainDirectory { path } => target.remaining_depth > 1
                    ==> after.pending.contains(
                    ScanTargetV {
                        path: path@,
                        remaining_depth: (target.remaining_depth - 1) as nat,
                        is_search_root: false,
                    },
                ),
                EntryReport::Repository { root } => has_path(
                    after.visited,
                    root@,
                    scan.path_rules,
                ),
                _ => true,
            }
        }),
    decreases reports.len(),
{
    let next = scan.after(target, reports[0]);
    let after = after_all(scan, target, reports);
    if at > 0 {
        assert(reports.drop_first()[at - 1] == reports[at]);
        lemma_reports_are_taken_in(next, target, reports.drop_first(), at - 1);
    } else {
        lemma_reports_only_add(next, target, reports.drop_first());
        match reports[0] {
            EntryReport::PlainDirectory { path } => {
                if target.remaining_depth > 1 {
                    let place = next.pending.len() - 1;
                    assert(after.pending[place] == after.pending.take(
                        next.pending.len() as int,
                    )[place]);
                }
            },
            EntryReport::Repository { root } => {
                lemma_repositories_are_found_and_not_entered(scan, target, root);
            },
            _ => {},
        }
    }
}

proof fn lemma_pending_is_looked_into(
    scan: ScanV,
    listing: Listing,
    steps: nat,
    target: ScanTargetV,
)
    requires
        after_steps(scan, listing, steps).pending.len() == 0,
        scan.pending.contains(target),
    ensures
        looked_into(scan, listing, steps).contains(target),
    decreases steps,
{
    let all = looked_into(scan, listing, steps);
    let last = scan.pending.last();
    let i = choose|i: int| 0 <= i < scan.pending.len() && scan.pending[i] == target;
    if i == scan.pending.len() - 1 {
        assert(all[0] == target);
    } else {
        let rest = ScanV { pending: scan.pending.drop_last(), ..scan };
        let next = after_directory(scan, listing);
        lemma_reports_only_add(rest, last, listing(last.path));
        assert(next.pending[i] == next.pending.take(rest.pending.len() as int)[i]);
        lemma_pending_is_looked_into(next, listing, (steps - 1) as nat, target);
        let later = looked_into(next, listing, (steps - 1) as nat);
        let k = choose|k: int| 0 <= k < later.len() && later[k] == target;
        assert(all[k + 1] == target);
    }
}

/// A search that has come to its end has looked into every plain directory that it found in a
/// directory that it looked into, as long as there were levels left; and every repository that
/// it found in one counts as found.
pub proof fn lemma_search_reaches_the_next_level(
    scan: ScanV,
    listing: Listing,
    steps: nat,
    target: ScanTargetV,
    at: int,
)
    requires
        after_steps(scan, listing, steps).pending.len() == 0,
        looked_into(scan, listing, steps).contains(target),
        0 <= at < listing(target.path).len(),
    ensures
        match listing(target.path)[at] {
            EntryReport::PlainDirectory { path } => target.remaining_depth > 1 ==> looked_into(
                scan,
                listing,
                steps,
            ).contains(
                ScanTargetV {
                    path: path@,
                    remaining_depth: (target.remaining_depth - 1) as nat,
                    is_search_root: false,
                },
            ),
            EntryReport::Repository { root } => has_path(
                after_steps(scan, listing, steps).visited,
                root@,
                scan.path_rules,
            ),
            _ => true,
        },
    decreases steps,
{
    let all = looked_into(scan, listing, steps);
    let k = choose|k: int| 0 <= k < all.len() && all[k] == target;
    let last = scan.pending.last();
    let rest = ScanV { pending: scan.pending.drop_last(), ..scan };
    let next = after_directory(scan, listing);
    let later = looked_into(next, listing, (steps - 1) as nat);
    lemma_reports_only_add(rest, last, listing(last.path));
    if k == 0 {
        lemma_reports_are_taken_in(rest, last, listing(last.path), at);
        match listing(target.path)[at] {
            EntryReport::PlainDirectory { path } => {
                if target.remaining_depth > 1 {
                    let child = ScanTargetV {
                        path: path@,
                        remaining_depth: (target.remaining_depth - 1) as nat,
                        is_search_root: false,
                    };
                    lemma_pending_is_looked_into(next, listing, (steps - 1) as nat, child);
                    let m = choose|m: int| 0 <= m < later.len() && later[m] == child;
                    assert(all[m + 1] == child);
                }
            },
            EntryReport::Repository { root } => {
                lemma_found_stays_found(next, listing, (steps - 1) as nat, root@);
            },
            _ => {},
        }
    } else {
        assert(later[k - 1] == target);
        lemma_search_reaches_the_next_level(next, listing, (steps - 1) as nat, target, at);
        match listing(target.path)[at] {
            EntryReport::PlainDirectory { path } => {
                if target.remaining_depth > 1 {
                    let child = ScanTargetV {
                        path: path@,
                        remaining_depth: (target.remaining_depth - 1) as nat,
                        is_search_root: false,
                    };
                    let m = choose|m: int| 0 <= m < later.len() && later[m] == child;
                    assert(all[m + 1] == child);
                }
            },
            _ => {},
        }
    }
}

proof fn lemma_found_stays_found(scan: ScanV, listing: Listing, steps: nat, root: Seq<u8>)
    requires
        has_path(scan.visited, root, scan.path_rules),
    ensures
        has_path(after_steps(scan, listing, steps).visited, root, scan.path_rules),
    decreases steps,
{
    if steps > 0 && scan.pending.len() > 0 {
        let last = scan.pending.last();
        let rest = ScanV { pending: scan.pending.drop_last(), ..scan };
        lemma_reports_only_add(rest, last, listing(last.path));
        let next = after_directory(scan, listing);
        assert(has_path(next.visited, root, scan.path_rules));
        lemma_found_stays_found(next, listing, (steps - 1) as nat, root);
    }
}

/// Whether a way leads down from a directory: each step is a plain directory that the one before
/// it holds.
pub open spec fn leads_down(listing: Listing, way: Seq<Seq<u8>>) -> bool {
    forall|i: int| 0 <= i < way.len() - 1 ==> holds_directory(listing, #[trigger] way[i], way[i + 1])
}

/// Whether a directory holds a plain directory.
pub open spec fn holds_directory(listing: Listing, parent: Seq<u8>, path: Seq<u8>) -> bool {
    exists|at: int|
        0 <= at < listing(parent).len() && is_directory(#[trigger] listing(parent)[at], path)
}

pub open spec fn is_directory(report: EntryReport, path: Seq<u8>) -> bool {
    report matches EntryReport::PlainDirectory { path: found } && found@ == path
}

/// A search looks into every directory that lies fewer levels below its directory than it is to
/// look at, and to which plain directories lead; and it finds every repository in them.
pub proof fn lemma_search_goes_to_its_depth(
    scan: ScanV,
    listing: Listing,
    steps: nat,
    start: ScanTargetV,
    way: Seq<Seq<u8>>,
)
    requires
        after_steps(scan, listing, steps).pending.len() == 0,
        scan.pending == seq![start],
        way.len() > 0,
        way[0] == start.path,
        way.len() <= start.remaining_depth,
        leads_down(listing, way),
    ensures
        exists|target: ScanTargetV|
            looked_into(scan, listing, steps).contains(target) && (#[trigger] target.path)
                == way.last() && target.remaining_depth == start.remaining_depth - (way.len() - 1),
        forall|at: int|
            0 <= at < listing(way.last()).len() && (#[trigger] listing(way.last())[at])
                is Repository ==> has_path(
                after_steps(scan, listing, steps).visited,
                listing(way.last())[at]->root@,
                scan.path_rules,
            ),
    decreases way.len(),
{
    let all = looked_into(scan, listing, steps);
    if way.len() == 1 {
        assert(scan.pending[0] == start);
        lemma_pending_is_looked_into(scan, listing, steps, start);
        assert(start.path == way.last());
    } else {
        let before = way.drop_last();
        assert(leads_down(listing, before)) by {
            assert forall|i: int| 0 <= i < before.len() - 1 implies holds_directory(
                listing,
                #[trigger] before[i],
                before[i + 1],
            ) by {
                assert(before[i] == way[i] && before[i + 1] == way[i + 1]);
            }
        }
        lemma_search_goes_to_its_depth(scan, listing, steps, start, before);
        let target = choose|target: ScanTargetV|
            all.contains(target) && (#[trigger] target.path) == before.last()
                && target.remaining_depth == start.remaining_depth - (before.len() - 1);
        assert(before.last() == way[way.len() - 2]);
        let parent = way[way.len() - 2];
        assert(holds_directory(listing, parent, way[way.len() - 2 + 1]));
        let at = choose|at: int|
            0 <= at < listing(parent).len() && is_directory(
                #[trigger] listing(parent)[at],
                way.last(),
            );
        lemma_search_reaches_the_next_level(scan, listing, steps, target, at);
        let child = ScanTargetV {
            path: way.last(),
            remaining_depth: (target.remaining_depth - 1) as nat,
            is_search_root: false,
        };
        assert(all.contains(child));
        assert(child.path == way.last());
    }
    let target = choose|target: ScanTargetV|
        all.contains(target) && (#[trigger] target.path) == way.last() && target.remaining_depth
            == start.remaining_depth - (way.len() - 1);
    assert forall|at: int|
        0 <= at < listing(way.last()).len() && (#[trigger] listing(way.last())[at])
            is Repository implies has_path(
        after_steps(scan, listing, steps).visited,
        listing(way.last())[at]->root@,
        scan.path_rules,
    ) by {
        lemma_search_reaches_the_next_level(scan, listing, steps, target, at);
    }
}

/// A search looks into no other directories than those that wait at its start and the plain
/// directories that it finds, and never deeper than it was told.
pub proof fn lemma_search_stays_within_its_depth(
    scan: ScanV,
    listing: Listing,
    steps: nat,
    depth: nat,
)
    requires
        forall|i: int|
            0 <= i < scan.pending.len() ==> 1 <= (#[trigger] scan.pending[i]).remaining_depth
                <= depth,
    ensures
        forall|i: int|
            0 <= i < looked_into(scan, listing, steps).len() ==> 1 <= (#[trigger] looked_into(
                scan,
                listing,
                steps,
            )[i]).remaining_depth <= depth,
    decreases steps,
{
    if steps > 0 && scan.pending.len() > 0 {
        let last = scan.pending.last();
        assert(1 <= scan.pending[scan.pending.len() - 1].remaining_depth <= depth);
        let rest = ScanV { pending: scan.pending.drop_last(), ..scan };
        let next = after_directory(scan, listing);
        lemma_depths_stay(rest, last, listing(last.path), depth);
        lemma_search_stays_within_its_depth(next, listing, (steps - 1) as nat, depth);
        let later = looked_into(next, listing, (steps - 1) as nat);
        let all = looked_into(scan, listing, steps);
        assert forall|i: int| 0 <= i < all.len() implies 1 <= (#[trigger] all[i]).remaining_depth
            <= depth by {
            if i > 0 {
                assert(all[i] == later[i - 1]);
            }
        }
    }
}

proof fn lemma_depths_stay(
    scan: ScanV,
    target: ScanTargetV,
    reports: Seq<EntryReport>,
    depth: nat,
)
    requires
        1 <= target.remaining_depth <= depth,
        forall|i: int|
            0 <= i < scan.pending.len() ==> 1 <= (#[trigger] scan.pending[i]).remaining_depth
                <= depth,
    ensures
        forall|i: int|
            0 <= i < after_all(scan, target, reports).pending.len() ==> 1 <= (#[trigger] after_all(
                scan,
                target,
                reports,
            ).pending[i]).remaining_depth <= depth,
    decreases reports.len(),
{
    if reports.len() > 0 {
        let next = scan.after(target, reports[0]);
        assert forall|i: int| 0 <= i < next.pending.len() implies 1 <= (
        #[trigger] next.pending[i]).remaining_depth <= depth by {
            if i < scan.pending.len() {
                assert(next.pending[i] == scan.pending[i]);
            }
        }
        lemma_depths_stay(next, target, reports.drop_first(), depth);
    }
}

} // verus!
