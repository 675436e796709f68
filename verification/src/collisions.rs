//! Telling apart repositories that have the same name by the folders that they lie in.

use crate::git::{Repo, RepoV};
use crate::path::{components, has_parent, parts, path_prefix, prefix_len, prefix_spelling, Component, PathBuf, PathPart, PathRules};
use crate::text::{bytes_equal, concat, decode_lossy, join, joined, lossy_text, lowercase, lowercase_of, same_text};
use vstd::prelude::*;
use vstd::string::*;

verus! {

/// What makes two names count as the same.
pub open spec fn name_key(name: Seq<char>, case_insensitive: bool) -> Seq<char> {
    if case_insensitive {
        lowercase_of(name)
    } else {
        name
    }
}

/// The names among some components.
pub open spec fn named(all: Seq<PathPart>) -> Seq<Seq<u8>>
    decreases all.len(),
{
    if all.len() == 0 {
        Seq::empty()
    } else {
        let before = named(all.drop_last());
        match all.last() {
            PathPart::Named(name) => before.push(name),
            _ => before,
        }
    }
}

/// The folders that a path lies in, from the outermost to the innermost; a drive or a share
/// counts as one.
pub open spec fn folders_of(path: Seq<u8>, rules: PathRules) -> Seq<Seq<u8>> {
    let drive = match path_prefix(path, rules) {
        Some(prefix) => seq![path.take(prefix_len(path, rules))],
        None => Seq::empty(),
    };
    if has_parent(path, rules) {
        drive + named(parts(path, rules).drop_last())
    } else {
        Seq::empty()
    }
}

pub open spec fn same_folder(left: Seq<u8>, right: Seq<u8>, case_insensitive: bool) -> bool {
    left == right || (case_insensitive && lowercase_of(lossy_text(left)) == lowercase_of(
        lossy_text(right),
    ))
}

pub open spec fn same_folders(
    left: Seq<Seq<u8>>,
    right: Seq<Seq<u8>>,
    case_insensitive: bool,
) -> bool {
    left.len() == right.len() && forall|i: int|
        0 <= i < left.len() ==> same_folder(#[trigger] left[i], right[i], case_insensitive)
}

/// The innermost `depth` folders.
pub open spec fn inner(folders: Seq<Seq<u8>>, depth: int) -> Seq<Seq<u8>> {
    folders.skip(folders.len() - depth)
}

/// The repositories by their folders and by what counts as their names.
pub struct Places {
    pub folders: Seq<Seq<Seq<u8>>>,
    pub keys: Seq<Seq<char>>,
    pub case_insensitive: bool,
}

pub open spec fn places(repos: Seq<RepoV>, case_insensitive: bool, rules: PathRules) -> Places {
    Places {
        folders: repos.map_values(|repo: RepoV| folders_of(repo.path, rules)),
        keys: repos.map_values(|repo: RepoV| name_key(repo.name, case_insensitive)),
        case_insensitive,
    }
}

impl Places {
    /// Whether `other` is another repository of the same name.
    pub open spec fn rival(self, index: int, other: int) -> bool {
        0 <= other < self.keys.len() && other != index && self.keys[other] == self.keys[index]
    }

    pub open spec fn collides(self, index: int) -> bool {
        exists|other: int| self.rival(index, other)
    }

    /// Whether the innermost `depth` folders set a repository apart from another one.
    pub open spec fn apart(self, index: int, other: int, depth: int) -> bool {
        self.folders[other].len() < depth || !same_folders(
            inner(self.folders[other], depth),
            inner(self.folders[index], depth),
            self.case_insensitive,
        )
    }

    /// Whether they set it apart from every other repository of its name.
    pub open spec fn tells(self, index: int, depth: int) -> bool {
        forall|other: int| #[trigger] self.rival(index, other) ==> self.apart(index, other, depth)
    }

    /// The fewest folders that tell a repository from the others of its name.
    pub open spec fn is_depth(self, index: int, depth: int) -> bool {
        &&& 1 <= depth <= self.folders[index].len()
        &&& self.tells(index, depth)
        &&& forall|less: int| 1 <= less < depth ==> !#[trigger] self.tells(index, less)
    }

    /// Whether folders tell every repository from the others of its name.
    pub open spec fn distinguishable(self) -> bool {
        forall|index: int|
            0 <= index < self.keys.len() && self.collides(index) ==> exists|depth: int| #[trigger]
                self.is_depth(index, depth)
    }

    /// What is shown beside the name of a repository: nothing where its name is its own,
    /// else the fewest folders that set it apart.
    pub open spec fn labelled(self, index: int, label: Option<Seq<char>>) -> bool {
        if self.collides(index) {
            exists|depth: int| #[trigger]
                self.is_depth(index, depth) && label == Some(
                    folder_label(self.folders[index], depth),
                )
        } else {
            label is None
        }
    }

    /// What is shown beside the name of a repository that folders tell apart.
    pub open spec fn label(self, index: int) -> Option<Seq<char>> {
        if self.collides(index) {
            Some(folder_label(self.folders[index], choose|depth: int| self.is_depth(index, depth)))
        } else {
            None
        }
    }
}

pub open spec fn shown_folders(folders: Seq<Seq<u8>>) -> Seq<Seq<char>> {
    folders.map_values(|folder: Seq<u8>| lossy_text(folder))
}

/// The innermost `depth` folders as text, marked where there are more.
pub open spec fn folder_label(folders: Seq<Seq<u8>>, depth: int) -> Seq<char> {
    let text = joined(shown_folders(inner(folders, depth)), "/"@);
    if depth < folders.len() {
        "…/"@ + text
    } else {
        text
    }
}

/// Two repositories of the same name are never shown with the same folders.
pub proof fn lemma_labels_differ(all: Places, index: int, depth: int, other: int, other_depth: int)
    requires
        0 <= index < all.keys.len(),
        all.rival(index, other),
        all.is_depth(index, depth),
        all.is_depth(other, other_depth),
    ensures
        inner(all.folders[index], depth) != inner(all.folders[other], other_depth),
        !same_folders(
            inner(all.folders[other], other_depth),
            inner(all.folders[index], depth),
            all.case_insensitive,
        ),
{
    assert(all.apart(index, other, depth));
    if depth == other_depth {
        let left = inner(all.folders[other], depth);
        let right = inner(all.folders[index], depth);
        if left == right {
            assert(same_folders(left, right, all.case_insensitive));
        }
    } else {
        assert(inner(all.folders[index], depth).len() == depth);
        assert(inner(all.folders[other], other_depth).len() == other_depth);
    }
}

/// The depth of a repository is one number.
pub proof fn lemma_depth_unique(all: Places, index: int, a: int, b: int)
    requires
        all.is_depth(index, a),
        all.is_depth(index, b),
    ensures
        a == b,
{
    if a < b {
        assert(!all.tells(index, a));
    }
    if b < a {
        assert(!all.tells(index, b));
    }
}

#[verifier::loop_isolation(false)]
fn find_folders(path: &PathBuf, rules: PathRules) -> (folders: Vec<Vec<u8>>)
    ensures
        folders.deep_view() == folders_of(path@, rules),
{
    let all = components(path, rules);
    let ghost view = parts(path@, rules);
    let mut folders: Vec<Vec<u8>> = Vec::new();
    assert(folders.deep_view() =~= Seq::empty());
    if all.len() == 0 {
        return folders;
    }
    assert(view.last() == all@[all.len() - 1].deep_view());
    match &all[all.len() - 1] {
        Component::Root => {
            return folders;
        },
        Component::Prefix(_) => {
            return folders;
        },
        _ => {},
    }
    match prefix_spelling(path, rules) {
        Some(drive) => {
            folders.push(drive);
            assert(folders@[0].deep_view() =~= path@.take(prefix_len(path@, rules)));
        },
        None => {},
    }
    let ghost lead = folders.deep_view();
    assert(lead =~= match path_prefix(path@, rules) {
        Some(prefix) => seq![path@.take(prefix_len(path@, rules))],
        None => Seq::empty(),
    });
    assert(lead + named(view.take(0)) =~= lead);
    let mut i: usize = 0;
    while i < all.len() - 1
        invariant
            i <= all.len() - 1,
            folders.deep_view() == lead + named(view.take(i as int)),
        decreases all.len() - i,
    {
        let ghost before = folders.deep_view();
        proof {
            assert(view.take(i + 1).drop_last() =~= view.take(i as int));
            assert(view.take(i + 1).last() == all@[i as int].deep_view());
        }
        match &all[i] {
            Component::Named(name) => {
                let copy = PathBuf::from_bytes(name.as_slice());
                let ghost added = copy.bytes@;
                folders.push(copy.bytes);
                assert(folders@[before.len() as int].deep_view() =~= added);
                assert(folders.deep_view() =~= before.push(added));
                assert(folders.deep_view() =~= lead + named(view.take(i + 1)));
            },
            _ => {},
        }
        i = i + 1;
    }
    assert(view.take(all@.len() - 1) =~= view.drop_last());
    folders
}

fn equal_folder(left: &Vec<u8>, right: &Vec<u8>, case_insensitive: bool) -> (answer: bool)
    ensures
        answer == same_folder(left@, right@, case_insensitive),
{
    if bytes_equal(left.as_slice(), right.as_slice()) {
        return true;
    }
    if !case_insensitive {
        return false;
    }
    let l = decode_lossy(left.as_slice());
    let r = decode_lossy(right.as_slice());
    same_text(lowercase(l.as_str()).as_str(), lowercase(r.as_str()).as_str())
}

/// Whether the innermost `depth` folders of two places are the same.
fn equal_inner(
    left: &Vec<Vec<u8>>,
    right: &Vec<Vec<u8>>,
    depth: usize,
    case_insensitive: bool,
) -> (answer: bool)
    requires
        depth <= left.len(),
        depth <= right.len(),
    ensures
        answer == same_folders(
            inner(left.deep_view(), depth as int),
            inner(right.deep_view(), depth as int),
            case_insensitive,
        ),
{
    let ghost l = inner(left.deep_view(), depth as int);
    let ghost r = inner(right.deep_view(), depth as int);
    let mut i: usize = 0;
    while i < depth
        invariant
            i <= depth,
            depth <= left.len(),
            depth <= right.len(),
            l == inner(left.deep_view(), depth as int),
            r == inner(right.deep_view(), depth as int),
            forall|k: int| 0 <= k < i ==> same_folder(#[trigger] l[k], r[k], case_insensitive),
        decreases depth - i,
    {
        let a: &Vec<u8> = &left[left.len() - depth + i];
        let b: &Vec<u8> = &right[right.len() - depth + i];
        proof {
            assert(l[i as int] =~= a@);
            assert(r[i as int] =~= b@);
        }
        if !equal_folder(a, b, case_insensitive) {
            assert(!same_folder(l[i as int], r[i as int], case_insensitive));
            return false;
        }
        i = i + 1;
    }
    true
}

struct Gathered {
    folders: Vec<Vec<Vec<u8>>>,
    keys: Vec<String>,
}

spec fn gathered(found: Gathered, all: Places) -> bool {
    found.folders.deep_view() == all.folders && found.keys.deep_view() == all.keys
        && all.folders.len() == all.keys.len()
}

#[verifier::loop_isolation(false)]
fn gather(repos: &[Repo], case_insensitive: bool, rules: PathRules) -> (found: Gathered)
    ensures
        gathered(found, places(repos.deep_view(), case_insensitive, rules)),
{
    let ghost all = places(repos.deep_view(), case_insensitive, rules);
    let mut folders: Vec<Vec<Vec<u8>>> = Vec::new();
    let mut keys: Vec<String> = Vec::new();
    let mut i: usize = 0;
    while i < repos.len()
        invariant
            i <= repos.len(),
            folders@.len() == i,
            keys@.len() == i,
            forall|k: int| 0 <= k < i ==> (#[trigger] folders@[k]).deep_view() == all.folders[k],
            forall|k: int| 0 <= k < i ==> (#[trigger] keys@[k])@ == all.keys[k],
        decreases repos.len() - i,
    {
        folders.push(find_folders(&repos[i].path, rules));
        keys.push(
            if case_insensitive {
                lowercase(repos[i].name.as_str())
            } else {
                repos[i].name.clone()
            },
        );
        assert(repos.deep_view()[i as int] == repos@[i as int].deep_view());
        i = i + 1;
    }
    assert(folders.deep_view() =~= all.folders);
    assert(keys.deep_view() =~= all.keys);
    Gathered { folders, keys }
}

#[verifier::loop_isolation(false)]
fn has_rival(found: &Gathered, index: usize, Ghost(all): Ghost<Places>) -> (answer: bool)
    requires
        gathered(*found, all),
        index < found.keys.len(),
    ensures
        answer == all.collides(index as int),
{
    let mut other: usize = 0;
    while other < found.keys.len()
        invariant
            other <= found.keys.len(),
            forall|k: int| 0 <= k < other ==> !all.rival(index as int, k),
        decreases found.keys.len() - other,
    {
        assert(all.keys[other as int] == found.keys@[other as int]@);
        assert(all.keys[index as int] == found.keys@[index as int]@);
        if other != index && same_text(found.keys[other].as_str(), found.keys[index].as_str()) {
            assert(all.rival(index as int, other as int));
            return true;
        }
        other = other + 1;
    }
    false
}

#[verifier::loop_isolation(false)]
fn depth_tells(
    found: &Gathered,
    index: usize,
    depth: usize,
    case_insensitive: bool,
    Ghost(all): Ghost<Places>,
) -> (answer: bool)
    requires
        gathered(*found, all),
        all.case_insensitive == case_insensitive,
        index < found.keys.len(),
        depth <= found.folders@[index as int].len(),
    ensures
        answer == all.tells(index as int, depth as int),
{
    let mut other: usize = 0;
    while other < found.keys.len()
        invariant
            other <= found.keys.len(),
            forall|k: int|
                0 <= k < other && #[trigger] all.rival(index as int, k) ==> all.apart(
                    index as int,
                    k,
                    depth as int,
                ),
        decreases found.keys.len() - other,
    {
        proof {
            assert(all.keys[other as int] == found.keys@[other as int]@);
            assert(all.keys[index as int] == found.keys@[index as int]@);
            assert(all.folders[other as int] == found.folders@[other as int].deep_view());
            assert(all.folders[index as int] == found.folders@[index as int].deep_view());
        }
        if other != index && same_text(found.keys[other].as_str(), found.keys[index].as_str()) {
            assert(all.rival(index as int, other as int));
            if found.folders[other].len() >= depth && equal_inner(
                &found.folders[other],
                &found.folders[index],
                depth,
                case_insensitive,
            ) {
                assert(!all.apart(index as int, other as int, depth as int));
                return false;
            }
        }
        other = other + 1;
    }
    true
}

#[verifier::loop_isolation(false)]
fn find_depth(
    found: &Gathered,
    index: usize,
    case_insensitive: bool,
    Ghost(all): Ghost<Places>,
) -> (depth: Option<usize>)
    requires
        gathered(*found, all),
        all.case_insensitive == case_insensitive,
        index < found.keys.len(),
    ensures
        match depth {
            Some(value) => all.is_depth(index as int, value as int),
            None => forall|value: int| !#[trigger] all.is_depth(index as int, value),
        },
{
    assert(all.folders[index as int] == found.folders@[index as int].deep_view());
    let mut depth: usize = 1;
    while depth <= found.folders[index].len()
        invariant
            1 <= depth <= found.folders@[index as int].len() + 1,
            forall|less: int| 1 <= less < depth ==> !#[trigger] all.tells(index as int, less),
        decreases found.folders@[index as int].len() + 1 - depth,
    {
        if depth_tells(found, index, depth, case_insensitive, Ghost(all)) {
            return Some(depth);
        }
        if depth == found.folders[index].len() {
            assert forall|value: int| !#[trigger] all.is_depth(index as int, value) by {
                if 1 <= value <= depth {
                    assert(!all.tells(index as int, value));
                }
            }
            return None;
        }
        depth = depth + 1;
    }
    None
}

fn label_of(folders: &Vec<Vec<u8>>, depth: usize) -> (label: String)
    requires
        1 <= depth <= folders.len(),
    ensures
        label@ == folder_label(folders.deep_view(), depth as int),
{
    let ghost wanted = shown_folders(inner(folders.deep_view(), depth as int));
    let mut shown: Vec<String> = Vec::new();
    let start: usize = folders.len() - depth;
    let mut i: usize = 0;
    while i < depth
        invariant
            i <= depth <= folders.len(),
            start == folders.len() - depth,
            wanted == shown_folders(inner(folders.deep_view(), depth as int)),
            shown@.len() == i,
            forall|k: int| 0 <= k < i ==> (#[trigger] shown@[k])@ == wanted[k],
        decreases depth - i,
    {
        proof {
            assert(inner(folders.deep_view(), depth as int)[i as int] =~= folders@[start + i]@);
        }
        shown.push(decode_lossy(folders[start + i].as_slice()));
        i = i + 1;
    }
    assert(shown.deep_view() =~= wanted);
    let text = join(&shown, "/");
    if depth < folders.len() {
        concat("…/", text.as_str())
    } else {
        text
    }
}

#[verifier::loop_isolation(false)]
fn find_labels(repos: &[Repo], case_insensitive: bool, rules: PathRules) -> (labels: Option<
    Vec<Option<String>>,
>)
    ensures
        match labels {
            Some(found) => {
                let all = places(repos.deep_view(), case_insensitive, rules);
                &&& all.distinguishable()
                &&& found@.len() == repos@.len()
                &&& forall|i: int|
                    0 <= i < found@.len() ==> all.labelled(
                        i,
                        (#[trigger] found@[i]).deep_view(),
                    )
            },
            None => !places(repos.deep_view(), case_insensitive, rules).distinguishable(),
        },
{
    let ghost all = places(repos.deep_view(), case_insensitive, rules);
    let found = gather(repos, case_insensitive, rules);
    let mut labels: Vec<Option<String>> = Vec::new();
    let mut i: usize = 0;
    while i < repos.len()
        invariant
            i <= repos.len(),
            labels@.len() == i,
            forall|k: int|
                0 <= k < i ==> all.labelled(k, (#[trigger] labels@[k]).deep_view()),
        decreases repos.len() - i,
    {
        if has_rival(&found, i, Ghost(all)) {
            assert(all.folders[i as int] == found.folders@[i as int].deep_view());
            match find_depth(&found, i, case_insensitive, Ghost(all)) {
                Some(depth) => {
                    let label = label_of(&found.folders[i], depth);
                    assert(all.is_depth(i as int, depth as int));
                    let entry: Option<String> = Some(label);
                    assert(all.labelled(i as int, entry.deep_view()));
                    labels.push(entry);
                },
                None => {
                    assert(all.collides(i as int));
                    return None;
                },
            }
        } else {
            labels.push(None);
        }
        i = i + 1;
    }
    assert forall|index: int|
        0 <= index < all.keys.len() && all.collides(index) implies exists|depth: int| #[trigger]
        all.is_depth(index, depth) by {
        assert(all.labelled(index, labels@[index].deep_view()));
    }
    Some(labels)
}

/// What is shown beside the name of each repository.
pub fn collision_disambiguators_with_case(repos: &[Repo], case_insensitive: bool, rules: PathRules) -> (labels: Vec<
    Option<String>,
>)
    requires
        places(repos.deep_view(), case_insensitive, rules).distinguishable(),
    ensures
        labels@.len() == repos@.len(),
        forall|i: int|
            0 <= i < labels@.len() ==> places(repos.deep_view(), case_insensitive, rules).labelled(
                i,
                (#[trigger] labels@[i]).deep_view(),
            ),
{
    match find_labels(repos, case_insensitive, rules) {
        Some(labels) => labels,
        None => Vec::new(),
    }
}

/// Whether folders tell every repository from the others of its name.
pub fn are_distinguishable(repos: &[Repo], case_insensitive: bool, rules: PathRules) -> (answer: bool)
    ensures
        answer == places(repos.deep_view(), case_insensitive, rules).distinguishable(),
{
    find_labels(repos, case_insensitive, rules).is_some()
}

/// What is shown beside the name of each repository, or nothing at all where folders do not
/// tell some repository from another one of its name.
pub fn checked_disambiguators(repos: &[Repo], case_insensitive: bool, rules: PathRules) -> (labels: Option<
    Vec<Option<String>>,
>)
    ensures
        match labels {
            Some(found) => {
                let all = places(repos.deep_view(), case_insensitive, rules);
                &&& all.distinguishable()
                &&& found@.len() == repos@.len()
                &&& forall|i: int|
                    0 <= i < found@.len() ==> all.labelled(
                        i,
                        (#[trigger] found@[i]).deep_view(),
                    )
            },
            None => !places(repos.deep_view(), case_insensitive, rules).distinguishable(),
        },
{
    if !are_distinguishable(repos, case_insensitive, rules) {
        return None;
    }
    Some(collision_disambiguators_with_case(repos, case_insensitive, rules))
}

/// Whether names that differ by letter case alone count as the same on a host.
pub open spec fn folds_case(rules: PathRules) -> bool {
    rules == PathRules::Windows
}

/// Whether names that differ by letter case alone count as the same on a host.
pub fn is_case_folded(rules: PathRules) -> (answer: bool)
    ensures
        answer == folds_case(rules),
{
    match rules {
        PathRules::Unix => false,
        PathRules::Windows => true,
    }
}

/// What is shown beside the name of each repository on a host.
pub fn collision_disambiguators(repos: &[Repo], rules: PathRules) -> (labels: Vec<Option<String>>)
    requires
        places(repos.deep_view(), folds_case(rules), rules).distinguishable(),
    ensures
        labels@.len() == repos@.len(),
        forall|i: int|
            0 <= i < labels@.len() ==> places(repos.deep_view(), folds_case(rules), rules).labelled(
                i,
                (#[trigger] labels@[i]).deep_view(),
            ),
{
    collision_disambiguators_with_case(repos, is_case_folded(rules), rules)
}

/// There is one label for each repository.
pub proof fn lemma_one_label(all: Places, index: int, label: Option<Seq<char>>)
    requires
        all.labelled(index, label),
    ensures
        label == all.label(index),
{
    if all.collides(index) {
        let depth = choose|depth: int| #[trigger]
            all.is_depth(index, depth) && label == Some(folder_label(all.folders[index], depth));
        let other = choose|depth: int| all.is_depth(index, depth);
        lemma_depth_unique(all, index, depth, other);
    }
}

} // verus!
