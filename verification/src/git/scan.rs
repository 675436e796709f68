//! The search for repositories below a directory, one directory entry at a time.

use crate::git::repo::{ScanWarning, ScanWarningV};
use crate::path::{equal_paths, joined_path, same_path, PathBuf, PathRules};
use crate::text::{concat, concat3, decode_lossy, lossy_text, owned};
use vstd::prelude::*;
use vstd::string::*;

verus! {

/// A directory to look into, and how many levels below it to look at.
#[derive(Debug, PartialEq, Eq)]
pub struct ScanTarget {
    pub path: PathBuf,
    pub remaining_depth: u16,
    pub is_search_root: bool,
}

pub struct ScanTargetV {
    pub path: Seq<u8>,
    pub remaining_depth: nat,
    pub is_search_root: bool,
}

impl DeepView for ScanTarget {
    type V = ScanTargetV;

    open spec fn deep_view(&self) -> ScanTargetV {
        ScanTargetV {
            path: self.path@,
            remaining_depth: self.remaining_depth as nat,
            is_search_root: self.is_search_root,
        }
    }
}

/// What was learnt of one entry of a directory.
#[derive(Debug, PartialEq, Eq)]
pub enum EntryReport {
    /// The entry could not be read.
    Unreadable { error: String },
    /// The kind of the entry could not be read.
    Uninspected { path: PathBuf, error: String },
    /// A file or a symbolic link.
    NotDirectory,
    /// A directory of which it is not known whether it holds a `.git` entry.
    GitUnknown { path: PathBuf, error: String },
    /// A directory with a `.git` entry whose location could not be resolved.
    Unresolved { path: PathBuf, error: String },
    /// A checkout of the repository whose main checkout is at `root`.
    Repository { root: PathBuf },
    /// A directory without a `.git` entry.
    PlainDirectory { path: PathBuf },
}

/// The state of a search.
#[derive(Debug, PartialEq, Eq)]
pub struct Scan {
    pub pending: Vec<ScanTarget>,
    pub visited: Vec<PathBuf>,
    pub warnings: Vec<ScanWarning>,
    pub path_rules: PathRules,
}

pub struct ScanV {
    pub pending: Seq<ScanTargetV>,
    pub visited: Seq<Seq<u8>>,
    pub warnings: Seq<ScanWarningV>,
    pub path_rules: PathRules,
}

impl DeepView for Scan {
    type V = ScanV;

    open spec fn deep_view(&self) -> ScanV {
        ScanV {
            pending: self.pending.deep_view(),
            visited: self.visited.deep_view(),
            warnings: self.warnings.deep_view(),
            path_rules: self.path_rules,
        }
    }
}

/// Whether some spelling of `path` is among `paths`.
pub open spec fn has_path(paths: Seq<Seq<u8>>, path: Seq<u8>, rules: PathRules) -> bool {
    exists|i: int| 0 <= i < paths.len() && same_path(#[trigger] paths[i], path, rules)
}

pub fn contains_path(paths: &Vec<PathBuf>, path: &PathBuf, rules: PathRules) -> (answer: bool)
    ensures
        answer == has_path(paths.deep_view(), path@, rules),
{
    let mut i: usize = 0;
    while i < paths.len()
        invariant
            i <= paths.len(),
            forall|k: int| 0 <= k < i ==> !same_path(#[trigger] paths.deep_view()[k], path@, rules),
        decreases paths.len() - i,
    {
        if equal_paths(&paths[i], path, rules) {
            assert(same_path(paths.deep_view()[i as int], path@, rules));
            return true;
        }
        i = i + 1;
    }
    false
}

impl ScanV {
    /// No directory is visited twice, and every pending directory may be looked into.
    pub open spec fn wf(self) -> bool {
        &&& forall|i: int, j: int|
            0 <= i < j < self.visited.len() ==> !same_path(
                #[trigger] self.visited[i],
                #[trigger] self.visited[j],
                self.path_rules,
            )
        &&& forall|i: int|
            0 <= i < self.pending.len() ==> (#[trigger] self.pending[i]).remaining_depth >= 1
    }

    pub open spec fn warned(self, path: Seq<u8>, message: Seq<char>) -> ScanV {
        ScanV { warnings: self.warnings.push(ScanWarningV { path, message }), ..self }
    }

    /// The search after one entry of `target`.
    pub open spec fn after(self, target: ScanTargetV, report: EntryReport) -> ScanV {
        match report {
            EntryReport::Unreadable { error } => self.warned(
                target.path,
                "failed to read directory entry: "@ + error@,
            ),
            EntryReport::Uninspected { path, error } => self.warned(
                path@,
                "failed to inspect directory entry: "@ + error@,
            ),
            EntryReport::NotDirectory => self,
            EntryReport::GitUnknown { path, error } => self.warned(
                joined_path(path@, ".git".spec_bytes(), self.path_rules),
                "failed to inspect .git entry: "@ + error@,
            ),
            EntryReport::Unresolved { path, error } => self.warned(
                path@,
                "failed to resolve repository path: "@ + error@,
            ),
            EntryReport::Repository { root } => if has_path(self.visited, root@, self.path_rules) {
                self
            } else {
                ScanV { visited: self.visited.push(root@), ..self }
            },
            EntryReport::PlainDirectory { path } => if target.remaining_depth > 1 {
                ScanV {
                    pending: self.pending.push(
                        ScanTargetV {
                            path: path@,
                            remaining_depth: (target.remaining_depth - 1) as nat,
                            is_search_root: false,
                        },
                    ),
                    ..self
                }
            } else {
                self
            },
        }
    }
}

impl Scan {
    /// A search of `dir`, whose canonical spelling is `canonical`, down to `depth` levels.
    pub fn start(dir: &PathBuf, canonical: PathBuf, depth: u16, path_rules: PathRules) -> (scan:
        Result<Scan, String>)
        ensures
            match scan {
                Ok(started) => {
                    &&& depth > 0
                    &&& started.deep_view() == (ScanV {
                        pending: seq![
                            ScanTargetV {
                                path: dir@,
                                remaining_depth: depth as nat,
                                is_search_root: true,
                            },
                        ],
                        visited: seq![canonical@],
                        warnings: Seq::empty(),
                        path_rules,
                    })
                    &&& started.deep_view().wf()
                },
                Err(message) => depth == 0 && message@
                    == "repository scan depth must be at least 1"@,
            },
    {
        if depth == 0 {
            return Err(owned("repository scan depth must be at least 1"));
        }
        let mut pending: Vec<ScanTarget> = Vec::new();
        pending.push(
            ScanTarget { path: dir.clone(), remaining_depth: depth, is_search_root: true },
        );
        let ghost root = canonical@;
        let mut visited: Vec<PathBuf> = Vec::new();
        visited.push(canonical);
        let scan = Scan { pending, visited, warnings: Vec::new(), path_rules };
        assert(scan.pending.deep_view() =~= seq![
            ScanTargetV { path: dir@, remaining_depth: depth as nat, is_search_root: true },
        ]);
        assert(scan.visited.deep_view() =~= seq![root]);
        assert(scan.warnings.deep_view() =~= Seq::empty());
        Ok(scan)
    }

    /// The directory to look into next, the one found last first.
    pub fn next_directory(&mut self) -> (target: Option<ScanTarget>)
        requires
            old(self).deep_view().wf(),
        ensures
            final(self).deep_view().wf(),
            match target {
                Some(found) => {
                    &&& old(self).deep_view().pending.len() > 0
                    &&& found.deep_view() == old(self).deep_view().pending.last()
                    &&& final(self).deep_view() == (ScanV {
                        pending: old(self).deep_view().pending.drop_last(),
                        ..old(self).deep_view()
                    })
                },
                None => old(self).deep_view().pending.len() == 0 && final(self).deep_view() == old(
                    self,
                ).deep_view(),
            },
    {
        let ghost before = self.deep_view();
        let target = self.pending.pop();
        proof {
            if before.pending.len() > 0 {
                assert(self.pending.deep_view() =~= before.pending.drop_last());
                assert forall|i: int| 0 <= i < self.deep_view().pending.len() implies (
                #[trigger] self.deep_view().pending[i]).remaining_depth >= 1 by {
                    assert(before.pending[i].remaining_depth >= 1);
                }
            } else {
                assert(self.pending.deep_view() =~= before.pending);
            }
        }
        target
    }

    fn warn(&mut self, path: PathBuf, message: String)
        ensures
            final(self).deep_view() == old(self).deep_view().warned(path@, message@),
    {
        let ghost before = self.deep_view();
        let warning = ScanWarning { path, message };
        let ghost added = warning.deep_view();
        self.warnings.push(warning);
        assert(self.warnings.deep_view() =~= before.warnings.push(added));
    }

    /// The directory could not be read: that ends the search at its root, and is a warning
    /// below it.
    pub fn directory_unreadable(&mut self, target: &ScanTarget, error: &str) -> (result: Result<
        (),
        String,
    >)
        requires
            old(self).deep_view().wf(),
        ensures
            final(self).deep_view().wf(),
            match result {
                Ok(_) => !target.is_search_root && final(self).deep_view() == old(
                    self,
                ).deep_view().warned(
                    target.path@,
                    "failed to read nested directory: "@ + error@,
                ),
                Err(message) => target.is_search_root && final(self).deep_view() == old(
                    self,
                ).deep_view() && message@ == "failed to read search directory "@ + lossy_text(
                    target.path@,
                ) + ": "@ + error@,
            },
    {
        if target.is_search_root {
            let shown = decode_lossy(target.path.bytes.as_slice());
            let mut message = concat3("failed to read search directory ", shown.as_str(), ": ");
            message.push_str(error);
            return Err(message);
        }
        let message = concat("failed to read nested directory: ", error);
        self.warn(target.path.clone(), message);
        Ok(())
    }

    /// Takes in one entry of `target`; hands back the root of a repository that was not found
    /// before.
    pub fn entry(&mut self, target: &ScanTarget, report: EntryReport) -> (found: Option<PathBuf>)
        requires
            old(self).deep_view().wf(),
        ensures
            final(self).deep_view().wf(),
            final(self).deep_view() == old(self).deep_view().after(target.deep_view(), report),
            match found {
                Some(path) => report matches EntryReport::Repository { root } && path@ == root@
                    && !has_path(old(self).deep_view().visited, root@, old(self).path_rules),
                None => report matches EntryReport::Repository { root } ==> has_path(
                    old(self).deep_view().visited,
                    root@,
                    old(self).path_rules,
                ),
            },
    {
        let ghost before = self.deep_view();
        match report {
            EntryReport::Unreadable { error } => {
                let message = concat("failed to read directory entry: ", error.as_str());
                self.warn(target.path.clone(), message);
                None
            },
            EntryReport::Uninspected { path, error } => {
                let message = concat("failed to inspect directory entry: ", error.as_str());
                self.warn(path, message);
                None
            },
            EntryReport::NotDirectory => None,
            EntryReport::GitUnknown { path, error } => {
                let message = concat("failed to inspect .git entry: ", error.as_str());
                let git_entry = path.join(&PathBuf::new(".git"), self.path_rules);
                self.warn(git_entry, message);
                None
            },
            EntryReport::Unresolved { path, error } => {
                let message = concat("failed to resolve repository path: ", error.as_str());
                self.warn(path, message);
                None
            },
            EntryReport::Repository { root } => {
                if contains_path(&self.visited, &root, self.path_rules) {
                    None
                } else {
                    let copy = root.clone();
                    self.visited.push(copy);
                    assert(self.visited.deep_view() =~= before.visited.push(root@));
                    assert forall|i: int, j: int|
                        0 <= i < j < self.deep_view().visited.len() implies !same_path(
                        #[trigger] self.deep_view().visited[i],
                        #[trigger] self.deep_view().visited[j],
                        self.path_rules,
                    ) by {
                        assert(!same_path(before.visited[i], root@, self.path_rules));
                        if j < before.visited.len() {
                            assert(!same_path(before.visited[i], before.visited[j], self.path_rules));
                        }
                    }
                    assert(self.deep_view().pending == before.pending);
                    assert(self.deep_view().visited == before.visited.push(root@));
                    Some(root)
                }
            },
            EntryReport::PlainDirectory { path } => {
                if target.remaining_depth > 1 {
                    let next = ScanTarget {
                        path,
                        remaining_depth: target.remaining_depth - 1,
                        is_search_root: false,
                    };
                    let ghost added = next.deep_view();
                    self.pending.push(next);
                    assert(self.pending.deep_view() =~= before.pending.push(added));
                    assert forall|i: int| 0 <= i < self.deep_view().pending.len() implies (
                    #[trigger] self.deep_view().pending[i]).remaining_depth >= 1 by {
                        if i < before.pending.len() {
                            assert(before.pending[i].remaining_depth >= 1);
                        }
                    }
                    assert(self.deep_view().visited == before.visited);
                    assert(self.deep_view().pending == before.pending.push(added));
                }
                None
            },
        }
    }
}

/// A search goes at most as deep as it was told: what an entry adds to the pending
/// directories lies one level less deep than the directory it was found in.
pub proof fn lemma_scan_depth_decreases(scan: ScanV, target: ScanTargetV, report: EntryReport)
    ensures
        ({
            let next = scan.after(target, report);
            &&& next.pending.len() <= scan.pending.len() + 1
            &&& next.pending.len() > scan.pending.len() ==> next.pending.last().remaining_depth
                + 1 == target.remaining_depth && !next.pending.last().is_search_root
        }),
{
}

/// A repository is reported at most once: after a report every spelling of its root counts
/// as visited.
pub proof fn lemma_scan_reports_once(scan: ScanV, target: ScanTargetV, root: PathBuf)
    ensures
        has_path(scan.after(target, EntryReport::Repository { root }).visited, root@, scan.path_rules),
        forall|path: Seq<u8>|
            has_path(scan.visited, path, scan.path_rules) ==> #[trigger] has_path(
                scan.after(target, EntryReport::Repository { root }).visited,
                path,
                scan.path_rules,
            ),
{
    let next = scan.after(target, EntryReport::Repository { root });
    if !has_path(scan.visited, root@, scan.path_rules) {
        assert(same_path(next.visited[scan.visited.len() as int], root@, scan.path_rules));
    }
    assert forall|path: Seq<u8>| has_path(scan.visited, path, scan.path_rules) implies #[trigger] has_path(
        next.visited,
        path,
        scan.path_rules,
    ) by {
        let i = choose|i: int|
            0 <= i < scan.visited.len() && same_path(#[trigger] scan.visited[i], path, scan.path_rules);
        assert(same_path(next.visited[i], path, scan.path_rules));
    }
}

} // verus!
