//! Filesystem paths as byte strings, read by the rules of Unix or of Windows.

use crate::order::{compare_bytes, consistent, lemma_rank_bytes_flip, lemma_rank_bytes_transitive, rank_bytes, rank_int, Rank};
use crate::text::{ascii_letter, begins_with, bytes_equal, chars_of, concat, decode_lossy, is_ascii_letter, lemma_pieces_nonempty, lossy_text, lowercase, lowercase_of, owned, pieces, same_text, split_bytes, strip_prefix, text_of};
use vstd::prelude::*;
use vstd::string::*;

verus! {

/// A path, kept in the spelling that it was given in.
#[derive(Debug)]
pub struct PathBuf {
    pub bytes: Vec<u8>,
}

impl View for PathBuf {
    type V = Seq<u8>;

    open spec fn view(&self) -> Seq<u8> {
        self.bytes@
    }
}

impl DeepView for PathBuf {
    type V = Seq<u8>;

    open spec fn deep_view(&self) -> Seq<u8> {
        self.bytes@
    }
}

impl Clone for PathBuf {
    fn clone(&self) -> (path: Self)
        ensures
            path@ == self@,
    {
        PathBuf { bytes: copy_bytes(&self.bytes) }
    }
}

pub fn copy_paths(paths: &Vec<PathBuf>) -> (copy: Vec<PathBuf>)
    ensures
        copy.deep_view() == paths.deep_view(),
{
    let mut copy: Vec<PathBuf> = Vec::new();
    let mut i: usize = 0;
    while i < paths.len()
        invariant
            i <= paths.len(),
            copy@.len() == i,
            forall|k: int| 0 <= k < i ==> (#[trigger] copy@[k])@ == paths@[k]@,
        decreases paths.len() - i,
    {
        copy.push(paths[i].clone());
        i = i + 1;
    }
    assert(copy.deep_view() =~= paths.deep_view());
    copy
}

pub const SLASH: u8 = 47;

pub const BACKSLASH: u8 = 92;

pub const DOT: u8 = 46;

pub const COLON: u8 = 58;

pub const QUESTION: u8 = 63;

/// The rules by which the host reads, compares and spells paths.
#[derive(Debug, Clone, Copy, PartialEq, Eq, Structural)]
pub enum PathRules {
    Unix,
    Windows,
}

/// The ways in which a Windows path names a drive, a share or a device, in their order.
#[derive(Debug, Clone, Copy, PartialEq, Eq, Structural)]
pub enum PrefixKind {
    /// `\\?\name`
    Verbatim,
    /// `\\?\UNC\server\share`
    VerbatimShare,
    /// `\\?\C:`
    VerbatimDrive,
    /// `\\.\name`
    Device,
    /// `\\server\share`
    Share,
    /// `C:`
    Drive,
}

/// What a Windows path starts with, before its root; a drive letter stands as a capital.
#[derive(Debug, PartialEq, Eq)]
pub struct PathPrefix {
    pub kind: PrefixKind,
    pub first: Vec<u8>,
    pub second: Vec<u8>,
}

#[verifier::ext_equal]
pub struct PathPrefixV {
    pub kind: PrefixKind,
    pub first: Seq<u8>,
    pub second: Seq<u8>,
}

impl DeepView for PathPrefix {
    type V = PathPrefixV;

    open spec fn deep_view(&self) -> PathPrefixV {
        PathPrefixV { kind: self.kind, first: self.first@, second: self.second@ }
    }
}

impl PathPrefixV {
    /// How many bytes spell the prefix.
    pub open spec fn length(self) -> int {
        let second = if self.second.len() > 0 {
            self.second.len() as int + 1
        } else {
            0int
        };
        match self.kind {
            PrefixKind::Verbatim => 4 + self.first.len() as int,
            PrefixKind::VerbatimShare => 8 + self.first.len() as int + second,
            PrefixKind::VerbatimDrive => 6,
            PrefixKind::Device => 4 + self.first.len() as int,
            PrefixKind::Share => 2 + self.first.len() as int + second,
            PrefixKind::Drive => 2,
        }
    }

    /// Whether what follows is taken as it is spelled.
    pub open spec fn verbatim(self) -> bool {
        self.kind == PrefixKind::Verbatim || self.kind == PrefixKind::VerbatimShare || self.kind
            == PrefixKind::VerbatimDrive
    }
}

/// One component of a path.
#[verifier::ext_equal]
pub enum PathPart {
    Prefix(PathPrefixV),
    Root,
    Current,
    Parent,
    Named(Seq<u8>),
}

/// One component of a path, in executable form.
#[derive(Debug, PartialEq, Eq)]
pub enum Component {
    Prefix(PathPrefix),
    Root,
    Current,
    Parent,
    Named(Vec<u8>),
}

impl DeepView for Component {
    type V = PathPart;

    open spec fn deep_view(&self) -> PathPart {
        match self {
            Component::Prefix(prefix) => PathPart::Prefix(prefix.deep_view()),
            Component::Root => PathPart::Root,
            Component::Current => PathPart::Current,
            Component::Parent => PathPart::Parent,
            Component::Named(name) => PathPart::Named(name@),
        }
    }
}

pub open spec fn is_dot(piece: Seq<u8>) -> bool {
    piece.len() == 1 && piece[0] == DOT
}

pub open spec fn is_dot_dot(piece: Seq<u8>) -> bool {
    piece.len() == 2 && piece[0] == DOT && piece[1] == DOT
}

/// Whether a byte separates the components of a Windows path; in a verbatim path a slash
/// does not.
pub open spec fn separates(byte: u8, verbatim: bool) -> bool {
    byte == BACKSLASH || (!verbatim && byte == SLASH)
}

/// Where the component of a Windows path that starts at an index ends.
pub open spec fn component_end(path: Seq<u8>, start: int, verbatim: bool) -> int
    decreases path.len() - start,
{
    if start >= path.len() {
        path.len() as int
    } else if separates(path[start], verbatim) {
        start
    } else {
        component_end(path, start + 1, verbatim)
    }
}

/// Where the component behind one that ends at an index starts.
pub open spec fn behind(path: Seq<u8>, end: int) -> int {
    if end < path.len() {
        end + 1
    } else {
        end
    }
}

pub open spec fn letter(byte: u8) -> bool {
    65 <= byte <= 90 || 97 <= byte <= 122
}

pub open spec fn capital(byte: u8) -> u8 {
    if 97 <= byte <= 122 {
        (byte - 32) as u8
    } else {
        byte
    }
}

/// Whether a drive letter and a colon stand at an index.
pub open spec fn drive_at(path: Seq<u8>, index: int) -> bool {
    path.len() >= index + 2 && letter(path[index]) && path[index + 1] == COLON
}

/// A prefix of one name that starts at an index.
pub open spec fn named_prefix(kind: PrefixKind, path: Seq<u8>, start: int, verbatim: bool) -> PathPrefixV {
    PathPrefixV {
        kind,
        first: path.subrange(start, component_end(path, start, verbatim)),
        second: Seq::empty(),
    }
}

/// A prefix of a server that starts at an index and its share.
pub open spec fn share_prefix(kind: PrefixKind, path: Seq<u8>, start: int, verbatim: bool) -> PathPrefixV {
    let end = component_end(path, start, verbatim);
    let next = behind(path, end);
    PathPrefixV {
        kind,
        first: path.subrange(start, end),
        second: path.subrange(next, component_end(path, next, verbatim)),
    }
}

/// A prefix of a drive whose letter stands at an index.
pub open spec fn drive_prefix(kind: PrefixKind, path: Seq<u8>, index: int) -> PathPrefixV {
    PathPrefixV { kind, first: seq![capital(path[index])], second: Seq::empty() }
}

/// Whether a path starts with `\\?\`, spelled with backslashes.
pub open spec fn verbatim_start(path: Seq<u8>) -> bool {
    path.len() >= 4 && path[0] == BACKSLASH && path[1] == BACKSLASH && path[2] == QUESTION
        && path[3] == BACKSLASH
}

/// Whether a path that starts with `\\?\` goes on with `UNC\`.
pub open spec fn share_start(path: Seq<u8>) -> bool {
    path.len() >= 8 && path[4] == 85 && path[5] == 78 && path[6] == 67 && separates(path[7], false)
}

/// What a Windows path starts with: a drive, a share or a device.
pub open spec fn windows_prefix(path: Seq<u8>) -> Option<PathPrefixV> {
    if verbatim_start(path) {
        if share_start(path) {
            Some(share_prefix(PrefixKind::VerbatimShare, path, 8, true))
        } else if drive_at(path, 4) && (path.len() == 6 || separates(path[6], false)) {
            Some(drive_prefix(PrefixKind::VerbatimDrive, path, 4))
        } else {
            Some(named_prefix(PrefixKind::Verbatim, path, 4, true))
        }
    } else if path.len() >= 2 && separates(path[0], false) && separates(path[1], false) {
        if path.len() >= 4 && path[2] == DOT && separates(path[3], false) {
            Some(named_prefix(PrefixKind::Device, path, 4, false))
        } else {
            let share = share_prefix(PrefixKind::Share, path, 2, false);
            if share.first.len() > 0 && share.second.len() > 0 {
                Some(share)
            } else {
                None
            }
        }
    } else if drive_at(path, 0) {
        Some(drive_prefix(PrefixKind::Drive, path, 0))
    } else {
        None
    }
}

/// What a path starts with, before its root.
pub open spec fn path_prefix(path: Seq<u8>, rules: PathRules) -> Option<PathPrefixV> {
    match rules {
        PathRules::Unix => None,
        PathRules::Windows => windows_prefix(path),
    }
}

pub open spec fn prefix_len(path: Seq<u8>, rules: PathRules) -> int {
    match path_prefix(path, rules) {
        Some(prefix) => prefix.length(),
        None => 0,
    }
}

/// Whether a path goes on with a separator behind its prefix.
pub open spec fn root_written(path: Seq<u8>, rules: PathRules) -> bool {
    let at = prefix_len(path, rules);
    at < path.len() && (path[at] == SLASH || (rules == PathRules::Windows && path[at]
        == BACKSLASH))
}

/// Whether the prefix of a path has a root of its own: all but that of a drive do.
pub open spec fn root_implied(path: Seq<u8>, rules: PathRules) -> bool {
    match path_prefix(path, rules) {
        Some(prefix) => prefix.kind != PrefixKind::Drive,
        None => false,
    }
}

pub open spec fn has_root(path: Seq<u8>, rules: PathRules) -> bool {
    root_written(path, rules) || root_implied(path, rules)
}

/// Whether a path is absolute: it has a root, and on Windows also a prefix.
pub open spec fn absolute(path: Seq<u8>, rules: PathRules) -> bool {
    has_root(path, rules) && (rules == PathRules::Windows ==> path_prefix(path, rules) is Some)
}

/// Whether the prefix of a path has the rest taken as it is spelled.
pub open spec fn is_verbatim(path: Seq<u8>, rules: PathRules) -> bool {
    match path_prefix(path, rules) {
        Some(prefix) => prefix.verbatim(),
        None => false,
    }
}

/// The byte between the components of a path.
pub open spec fn separator(path: Seq<u8>, rules: PathRules) -> u8 {
    if is_verbatim(path, rules) {
        BACKSLASH
    } else {
        SLASH
    }
}

/// Slashes in place of backslashes.
pub open spec fn slashes(bytes: Seq<u8>) -> Seq<u8> {
    bytes.map_values(
        |byte: u8|
            if byte == BACKSLASH {
                SLASH
            } else {
                byte
            },
    )
}

/// How many bytes stand before the components behind prefix and root.
pub open spec fn head_len(path: Seq<u8>, rules: PathRules) -> int {
    prefix_len(path, rules) + (if root_written(path, rules) {
        1int
    } else {
        0
    })
}

/// What stands behind prefix and root, with one kind of separator.
pub open spec fn body_of(path: Seq<u8>, rules: PathRules) -> Seq<u8> {
    let rest = path.skip(head_len(path, rules));
    if rules == PathRules::Windows && !is_verbatim(path, rules) {
        slashes(rest)
    } else {
        rest
    }
}

/// Prefix and root of a path. A verbatim prefix implies its root without a component for it.
pub open spec fn head_parts(path: Seq<u8>, rules: PathRules) -> Seq<PathPart> {
    let prefix = match path_prefix(path, rules) {
        Some(prefix) => seq![PathPart::Prefix(prefix)],
        None => Seq::empty(),
    };
    if root_written(path, rules) || (root_implied(path, rules) && !is_verbatim(path, rules)) {
        prefix.push(PathPart::Root)
    } else {
        prefix
    }
}

/// The components that the pieces between separators name: empty pieces name none, nor does
/// `.` where dots are not kept.
pub open spec fn body_parts(split: Seq<Seq<u8>>, keep_dots: bool) -> Seq<PathPart>
    decreases split.len(),
{
    if split.len() == 0 {
        Seq::empty()
    } else {
        let before = body_parts(split.drop_last(), keep_dots);
        let piece = split.last();
        if piece.len() == 0 {
            before
        } else if is_dot(piece) {
            if keep_dots {
                before.push(PathPart::Current)
            } else {
                before
            }
        } else if is_dot_dot(piece) {
            before.push(PathPart::Parent)
        } else {
            before.push(PathPart::Named(piece))
        }
    }
}

/// Whether a body starts with a `.` component.
pub open spec fn starts_current(body: Seq<u8>, separator: u8) -> bool {
    body.len() > 0 && body[0] == DOT && (body.len() == 1 || body[1] == separator)
}

/// The components of a body. A `.` at the start counts where nothing stands before it.
pub open spec fn parts_of_body(
    body: Seq<u8>,
    separator: u8,
    keep_dots: bool,
    first: bool,
) -> Seq<PathPart> {
    (if first && starts_current(body, separator) {
        seq![PathPart::Current]
    } else {
        Seq::empty()
    }) + body_parts(pieces(body, separator), keep_dots)
}

/// The components of a path: repeated separators, one at the end and inner `.` make no
/// difference, but for the `.` of a verbatim path.
pub open spec fn parts(path: Seq<u8>, rules: PathRules) -> Seq<PathPart> {
    head_parts(path, rules) + parts_of_body(
        body_of(path, rules),
        separator(path, rules),
        is_verbatim(path, rules),
        head_len(path, rules) == 0,
    )
}

/// Whether two spellings name the same path.
pub open spec fn same_path(left: Seq<u8>, right: Seq<u8>, rules: PathRules) -> bool {
    parts(left, rules) == parts(right, rules)
}

/// Whether `path` is `base` or lies below it by the rules of Unix, component by component.
pub open spec fn below(path: Seq<u8>, base: Seq<u8>) -> bool {
    begins_with(parts(path, PathRules::Unix), parts(base, PathRules::Unix))
}

fn copy_bytes(bytes: &Vec<u8>) -> (copy: Vec<u8>)
    ensures
        copy@ == bytes@,
{
    let mut copy: Vec<u8> = Vec::new();
    let mut i: usize = 0;
    while i < bytes.len()
        invariant
            i <= bytes.len(),
            copy@ == bytes@.take(i as int),
        decreases bytes.len() - i,
    {
        copy.push(bytes[i]);
        i = i + 1;
        assert(bytes@.take(i as int) =~= bytes@.take(i - 1).push(bytes@[i - 1]));
    }
    assert(bytes@.take(i as int) =~= bytes@);
    copy
}

fn append_bytes(target: &mut Vec<u8>, suffix: &[u8])
    ensures
        final(target)@ == old(target)@ + suffix@,
{
    let ghost start = target@;
    let mut i: usize = 0;
    while i < suffix.len()
        invariant
            i <= suffix.len(),
            target@ == start + suffix@.take(i as int),
        decreases suffix.len() - i,
    {
        target.push(suffix[i]);
        i = i + 1;
        assert(target@ =~= start + suffix@.take(i as int));
    }
    assert(suffix@.take(i as int) =~= suffix@);
}

fn same_component(left: &Component, right: &Component) -> (same: bool)
    ensures
        same == (left.deep_view() == right.deep_view()),
{
    match (left, right) {
        (Component::Prefix(l), Component::Prefix(r)) => {
            let same = l.kind == r.kind && bytes_equal(l.first.as_slice(), r.first.as_slice())
                && bytes_equal(l.second.as_slice(), r.second.as_slice());
            assert(same == (l.deep_view() =~= r.deep_view()));
            same
        },
        (Component::Root, Component::Root) => true,
        (Component::Current, Component::Current) => true,
        (Component::Parent, Component::Parent) => true,
        (Component::Named(l), Component::Named(r)) => bytes_equal(l.as_slice(), r.as_slice()),
        _ => false,
    }
}

fn copy_range(bytes: &Vec<u8>, start: usize, end: usize) -> (copy: Vec<u8>)
    requires
        start <= end <= bytes@.len(),
    ensures
        copy@ == bytes@.subrange(start as int, end as int),
{
    let mut copy: Vec<u8> = Vec::new();
    let mut i: usize = start;
    while i < end
        invariant
            start <= i <= end <= bytes@.len(),
            copy@ == bytes@.subrange(start as int, i as int),
        decreases end - i,
    {
        copy.push(bytes[i]);
        i = i + 1;
        assert(copy@ =~= bytes@.subrange(start as int, i as int));
    }
    copy
}

proof fn lemma_component_end(path: Seq<u8>, start: int, verbatim: bool)
    requires
        0 <= start <= path.len(),
    ensures
        start <= component_end(path, start, verbatim) <= path.len(),
        component_end(path, start, verbatim) < path.len() ==> separates(
            path[component_end(path, start, verbatim)],
            verbatim,
        ),
        forall|i: int|
            start <= i < component_end(path, start, verbatim) ==> !separates(
                #[trigger] path[i],
                verbatim,
            ),
    decreases path.len() - start,
{
    if start < path.len() && !separates(path[start], verbatim) {
        lemma_component_end(path, start + 1, verbatim);
    }
}

fn does_separate(byte: u8, verbatim: bool) -> (answer: bool)
    ensures
        answer == separates(byte, verbatim),
{
    byte == BACKSLASH || (!verbatim && byte == SLASH)
}

fn find_end(bytes: &Vec<u8>, start: usize, verbatim: bool) -> (end: usize)
    requires
        start <= bytes@.len(),
    ensures
        end == component_end(bytes@, start as int, verbatim),
        start <= end <= bytes@.len(),
{
    let mut end: usize = start;
    while end < bytes.len() && !does_separate(bytes[end], verbatim)
        invariant
            start <= end <= bytes@.len(),
            component_end(bytes@, start as int, verbatim) == component_end(
                bytes@,
                end as int,
                verbatim,
            ),
        decreases bytes.len() - end,
    {
        end = end + 1;
    }
    end
}

fn is_drive_at(bytes: &Vec<u8>, index: usize) -> (answer: bool)
    requires
        index <= 4,
    ensures
        answer == drive_at(bytes@, index as int),
{
    if bytes.len() < index + 2 {
        return false;
    }
    let first: u8 = bytes[index];
    (65 <= first && first <= 90 || 97 <= first && first <= 122) && bytes[index + 1] == COLON
}

fn read_named(kind: PrefixKind, bytes: &Vec<u8>, start: usize, verbatim: bool) -> (prefix:
    PathPrefix)
    requires
        start <= bytes@.len(),
    ensures
        prefix.deep_view() == named_prefix(kind, bytes@, start as int, verbatim),
{
    let end: usize = find_end(bytes, start, verbatim);
    PathPrefix { kind, first: copy_range(bytes, start, end), second: Vec::new() }
}

fn read_share(kind: PrefixKind, bytes: &Vec<u8>, start: usize, verbatim: bool) -> (prefix:
    PathPrefix)
    requires
        start <= bytes@.len(),
    ensures
        prefix.deep_view() == share_prefix(kind, bytes@, start as int, verbatim),
{
    let end: usize = find_end(bytes, start, verbatim);
    let next: usize = if end < bytes.len() {
        end + 1
    } else {
        end
    };
    let last: usize = find_end(bytes, next, verbatim);
    PathPrefix {
        kind,
        first: copy_range(bytes, start, end),
        second: copy_range(bytes, next, last),
    }
}

fn read_drive(kind: PrefixKind, bytes: &Vec<u8>, index: usize) -> (prefix: PathPrefix)
    requires
        index < bytes@.len(),
    ensures
        prefix.deep_view() == drive_prefix(kind, bytes@, index as int),
{
    let byte: u8 = bytes[index];
    let letter: u8 = if 97 <= byte && byte <= 122 {
        byte - 32
    } else {
        byte
    };
    let mut first: Vec<u8> = Vec::new();
    first.push(letter);
    let prefix = PathPrefix { kind, first, second: Vec::new() };
    assert(prefix.deep_view() =~= drive_prefix(kind, bytes@, index as int));
    prefix
}

/// What a path starts with, before its root.
pub fn read_prefix(path: &PathBuf, rules: PathRules) -> (prefix: Option<PathPrefix>)
    ensures
        prefix.deep_view() == path_prefix(path@, rules),
{
    let bytes: &Vec<u8> = &path.bytes;
    let n: usize = bytes.len();
    match rules {
        PathRules::Unix => None,
        PathRules::Windows => if n >= 4 && bytes[0] == BACKSLASH && bytes[1] == BACKSLASH
            && bytes[2] == QUESTION && bytes[3] == BACKSLASH {
            if n >= 8 && bytes[4] == 85 && bytes[5] == 78 && bytes[6] == 67 && does_separate(
                bytes[7],
                false,
            ) {
                Some(read_share(PrefixKind::VerbatimShare, bytes, 8, true))
            } else if is_drive_at(bytes, 4) && (n == 6 || does_separate(bytes[6], false)) {
                Some(read_drive(PrefixKind::VerbatimDrive, bytes, 4))
            } else {
                Some(read_named(PrefixKind::Verbatim, bytes, 4, true))
            }
        } else if n >= 2 && does_separate(bytes[0], false) && does_separate(bytes[1], false) {
            if n >= 4 && bytes[2] == DOT && does_separate(bytes[3], false) {
                Some(read_named(PrefixKind::Device, bytes, 4, false))
            } else {
                let share = read_share(PrefixKind::Share, bytes, 2, false);
                if share.first.len() > 0 && share.second.len() > 0 {
                    Some(share)
                } else {
                    None
                }
            }
        } else if is_drive_at(bytes, 0) {
            Some(read_drive(PrefixKind::Drive, bytes, 0))
        } else {
            None
        },
    }
}

proof fn lemma_prefix_fits(path: Seq<u8>, rules: PathRules)
    ensures
        0 <= prefix_len(path, rules) <= path.len(),
        0 <= head_len(path, rules) <= path.len(),
{
    if rules == PathRules::Windows {
        let (v, s) = (true, false);
        if path.len() >= 8 {
            lemma_component_end(path, 8, v);
            lemma_component_end(path, behind(path, component_end(path, 8, v)), v);
        }
        if path.len() >= 4 {
            lemma_component_end(path, 4, v);
            lemma_component_end(path, 4, s);
        }
        if path.len() >= 2 {
            lemma_component_end(path, 2, s);
            lemma_component_end(path, behind(path, component_end(path, 2, s)), s);
        }
    }
}

fn prefix_length(prefix: &Option<PathPrefix>, path: &PathBuf, rules: PathRules) -> (length: usize)
    requires
        prefix.deep_view() == path_prefix(path@, rules),
    ensures
        length == prefix_len(path@, rules),
        length <= path@.len(),
{
    proof {
        lemma_prefix_fits(path@, rules);
    }
    assert(path.bytes.len() <= usize::MAX);
    match prefix {
        Some(prefix) => {
            let second: usize = if prefix.second.len() > 0 && (prefix.kind
                == PrefixKind::VerbatimShare || prefix.kind == PrefixKind::Share) {
                prefix.second.len() + 1
            } else {
                0
            };
            match prefix.kind {
                PrefixKind::Verbatim => 4 + prefix.first.len(),
                PrefixKind::VerbatimShare => 8 + prefix.first.len() + second,
                PrefixKind::VerbatimDrive => 6,
                PrefixKind::Device => 4 + prefix.first.len(),
                PrefixKind::Share => 2 + prefix.first.len() + second,
                PrefixKind::Drive => 2,
            }
        },
        None => 0,
    }
}

/// Prefix and root of a path, read once.
struct PathHead {
    prefix: Option<PathPrefix>,
    prefix_len: usize,
    root_written: bool,
    root_implied: bool,
    verbatim: bool,
    length: usize,
}

impl PathHead {
    spec fn of(self, path: Seq<u8>, rules: PathRules) -> bool {
        &&& self.prefix.deep_view() == path_prefix(path, rules)
        &&& self.prefix_len == prefix_len(path, rules)
        &&& self.root_written == root_written(path, rules)
        &&& self.root_implied == root_implied(path, rules)
        &&& self.verbatim == is_verbatim(path, rules)
        &&& self.length == head_len(path, rules)
        &&& self.length <= path.len()
        &&& self.prefix_len <= path.len()
    }
}

fn read_head(path: &PathBuf, rules: PathRules) -> (head: PathHead)
    ensures
        head.of(path@, rules),
{
    let prefix = read_prefix(path, rules);
    let prefix_len: usize = prefix_length(&prefix, path, rules);
    let root_written = prefix_len < path.bytes.len() && (path.bytes[prefix_len] == SLASH || (rules
        == PathRules::Windows && path.bytes[prefix_len] == BACKSLASH));
    let (root_implied, verbatim) = match &prefix {
        Some(prefix) => (
            prefix.kind != PrefixKind::Drive,
            prefix.kind == PrefixKind::Verbatim || prefix.kind == PrefixKind::VerbatimShare
                || prefix.kind == PrefixKind::VerbatimDrive,
        ),
        None => (false, false),
    };
    proof {
        lemma_prefix_fits(path@, rules);
    }
    let length: usize = if root_written {
        prefix_len + 1
    } else {
        prefix_len
    };
    PathHead { prefix, prefix_len, root_written, root_implied, verbatim, length }
}

/// How the prefix of a path is spelled.
pub fn prefix_spelling(path: &PathBuf, rules: PathRules) -> (spelling: Option<Vec<u8>>)
    ensures
        match spelling {
            Some(bytes) => path_prefix(path@, rules) is Some && bytes@ == path@.take(
                prefix_len(path@, rules),
            ),
            None => path_prefix(path@, rules) is None,
        },
{
    let head = read_head(path, rules);
    if head.prefix.is_none() {
        return None;
    }
    let bytes = copy_range(&path.bytes, 0, head.prefix_len);
    assert(bytes@ =~= path@.take(prefix_len(path@, rules)));
    Some(bytes)
}

/// What stands behind prefix and root.
fn read_body(path: &PathBuf, head: &PathHead, rules: PathRules) -> (body: Vec<u8>)
    requires
        head.of(path@, rules),
    ensures
        body@ == body_of(path@, rules),
{
    let bytes: &Vec<u8> = &path.bytes;
    let turn = rules == PathRules::Windows && !head.verbatim;
    let mut body: Vec<u8> = Vec::new();
    let mut i: usize = head.length;
    let ghost from = head_len(path@, rules);
    while i < bytes.len()
        invariant
            bytes@ == path@,
            0 <= from <= i <= bytes@.len(),
            body@.len() == i - from,
            forall|k: int|
                0 <= k < body@.len() ==> #[trigger] body@[k] == if turn && path@[from + k]
                    == BACKSLASH {
                    SLASH
                } else {
                    path@[from + k]
                },
        decreases bytes.len() - i,
    {
        let byte: u8 = bytes[i];
        if turn && byte == BACKSLASH {
            body.push(SLASH);
        } else {
            body.push(byte);
        }
        i = i + 1;
    }
    assert(body@ =~= body_of(path@, rules));
    body
}

/// The components of a path.
#[verifier::loop_isolation(false)]
pub fn components(path: &PathBuf, rules: PathRules) -> (found: Vec<Component>)
    ensures
        found.deep_view() == parts(path@, rules),
{
    let head = read_head(path, rules);
    let body = read_body(path, &head, rules);
    let separator: u8 = if head.verbatim {
        BACKSLASH
    } else {
        SLASH
    };
    let keep = head.verbatim;
    let first = head.length == 0;
    let rooted = head.root_written || (head.root_implied && !head.verbatim);
    let mut found: Vec<Component> = Vec::new();
    match head.prefix {
        Some(prefix) => {
            found.push(Component::Prefix(prefix));
        },
        None => {},
    }
    if rooted {
        found.push(Component::Root);
    }
    assert(found.deep_view() =~= head_parts(path@, rules));
    if first && body.len() > 0 && body[0] == DOT && (body.len() == 1 || body[1] == separator) {
        found.push(Component::Current);
    }
    let ghost lead = found.deep_view();
    assert(lead =~= head_parts(path@, rules) + (if first && starts_current(body@, separator) {
        seq![PathPart::Current]
    } else {
        Seq::empty()
    }));
    let split = split_bytes(body.as_slice(), separator);
    let ghost all = pieces(body@, separator);
    let mut i: usize = 0;
    assert(found.deep_view() =~= lead + body_parts(all.take(0), keep));
    while i < split.len()
        invariant
            i <= split.len(),
            split.deep_view() == all,
            found.deep_view() == lead + body_parts(all.take(i as int), keep),
        decreases split.len() - i,
    {
        let piece: &Vec<u8> = &split[i];
        let ghost before = found.deep_view();
        assert(all[i as int] =~= piece.deep_view());
        assert(piece.deep_view() =~= piece@);
        assert(all.take(i + 1).drop_last() =~= all.take(i as int));
        assert(all.take(i + 1).last() == piece@);
        i = i + 1;
        if piece.len() == 0 {
            assert(body_parts(all.take(i as int), keep) == body_parts(all.take(i - 1), keep));
        } else if piece.len() == 1 && piece[0] == DOT {
            if keep {
                found.push(Component::Current);
                assert(found.deep_view() =~= before.push(PathPart::Current));
            }
            assert(found.deep_view() =~= lead + body_parts(all.take(i as int), keep));
        } else if piece.len() == 2 && piece[0] == DOT && piece[1] == DOT {
            found.push(Component::Parent);
            assert(found.deep_view() =~= before.push(PathPart::Parent));
            assert(found.deep_view() =~= lead + body_parts(all.take(i as int), keep));
        } else {
            let name = copy_bytes(piece);
            found.push(Component::Named(name));
            assert(found.deep_view() =~= before.push(PathPart::Named(piece@)));
            assert(found.deep_view() =~= lead + body_parts(all.take(i as int), keep));
        }
    }
    assert(all.take(all.len() as int) =~= all);
    assert(found.deep_view() =~= parts(path@, rules));
    found
}

fn same_components(left: &Vec<Component>, right: &Vec<Component>) -> (same: bool)
    ensures
        same == (left.deep_view() == right.deep_view()),
{
    if left.len() != right.len() {
        assert(left.deep_view().len() != right.deep_view().len());
        return false;
    }
    let mut i: usize = 0;
    while i < left.len()
        invariant
            i <= left.len(),
            left.len() == right.len(),
            forall|k: int| 0 <= k < i ==> left.deep_view()[k] == right.deep_view()[k],
        decreases left.len() - i,
    {
        if !same_component(&left[i], &right[i]) {
            assert(left.deep_view()[i as int] != right.deep_view()[i as int]);
            return false;
        }
        i = i + 1;
    }
    assert(left.deep_view() =~= right.deep_view());
    true
}

/// Compare filesystem paths component by component.
pub fn equal_paths(left: &PathBuf, right: &PathBuf, rules: PathRules) -> (same: bool)
    ensures
        same == same_path(left@, right@, rules),
{
    let l = components(left, rules);
    let r = components(right, rules);
    same_components(&l, &r)
}

/// Return whether the components of `path` begin with those of `base`.
#[verifier::loop_isolation(false)]
pub fn lies_below(path: &PathBuf, base: &PathBuf) -> (answer: bool)
    ensures
        answer == below(path@, base@),
{
    let inner = components(path, PathRules::Unix);
    let outer = components(base, PathRules::Unix);
    if outer.len() > inner.len() {
        return false;
    }
    let ghost all = inner.deep_view();
    let mut i: usize = 0;
    while i < outer.len()
        invariant
            i <= outer.len() <= inner.len(),
            all == inner.deep_view(),
            forall|k: int| 0 <= k < i ==> all[k] == outer.deep_view()[k],
        decreases outer.len() - i,
    {
        if !same_component(&inner[i], &outer[i]) {
            assert(all.take(outer@.len() as int)[i as int] != outer.deep_view()[i as int]);
            return false;
        }
        i = i + 1;
    }
    assert(all.take(outer@.len() as int) =~= outer.deep_view());
    true
}

/// The path as text; bytes that are no text are replaced.
pub fn path_text(path: &PathBuf) -> (text: String)
    ensures
        text@ == lossy_text(path@),
{
    decode_lossy(path.bytes.as_slice())
}

/// Two paths are equal where their components are by the rules of Unix; the rules of a host
/// take `equal_paths`.
impl PartialEq for PathBuf {
    fn eq(&self, other: &Self) -> (same: bool) {
        equal_paths(self, other, PathRules::Unix)
    }
}

impl vstd::std_specs::cmp::PartialEqSpecImpl for PathBuf {
    open spec fn obeys_eq_spec() -> bool {
        true
    }

    open spec fn eq_spec(&self, other: &Self) -> bool {
        same_path(self@, other@, PathRules::Unix)
    }
}

impl Eq for PathBuf {

}

/// The components of a verbatim path and of what is put behind it: `.` and `..` are carried
/// out, and a root goes back to the one behind the prefix.
pub open spec fn carried_out(base: Seq<PathPart>, rest: Seq<PathPart>) -> Seq<PathPart>
    decreases rest.len(),
{
    if rest.len() == 0 {
        base
    } else {
        let before = carried_out(base, rest.drop_last());
        match rest.last() {
            PathPart::Root => (if before.len() > 1 {
                before.take(1)
            } else {
                before
            }).push(PathPart::Root),
            PathPart::Current => before,
            PathPart::Parent => if before.len() > 0 && before.last() is Named {
                before.drop_last()
            } else {
                before
            },
            part => before.push(part),
        }
    }
}

/// How a component behind a prefix is spelled.
pub open spec fn part_spelling(part: PathPart) -> Seq<u8> {
    match part {
        PathPart::Prefix(_) => Seq::empty(),
        PathPart::Root => seq![BACKSLASH],
        PathPart::Current => seq![DOT],
        PathPart::Parent => seq![DOT, DOT],
        PathPart::Named(name) => name,
    }
}

/// How a prefix and the components behind it are spelled, with one backslash between them.
pub open spec fn spelled(prefix: Seq<u8>, all: Seq<PathPart>) -> Seq<u8>
    decreases all.len(),
{
    if all.len() <= 1 {
        prefix
    } else {
        let before = spelled(prefix, all.drop_last());
        let part = all.last();
        let start = if part == PathPart::Root || all[all.len() - 2] == PathPart::Root {
            before
        } else {
            before.push(BACKSLASH)
        };
        start + part_spelling(part)
    }
}

/// What `base` followed by `rest` is on Windows. One with a prefix stands alone, and one with
/// a root only keeps the prefix of `base`. Behind a bare drive no separator is put.
pub open spec fn windows_joined(base: Seq<u8>, rest: Seq<u8>) -> Seq<u8> {
    let rules = PathRules::Windows;
    if path_prefix(rest, rules) is Some {
        rest
    } else if is_verbatim(base, rules) && rest.len() > 0 {
        spelled(
            base.take(prefix_len(base, rules)),
            carried_out(parts(base, rules), parts(rest, rules)),
        )
    } else if root_written(rest, rules) {
        base.take(prefix_len(base, rules)) + rest
    } else if base.len() == 0 || separates(base.last(), false) || (path_prefix(base, rules) is Some
        && path_prefix(base, rules)->0.kind == PrefixKind::Drive && base.len() == 2) {
        base + rest
    } else {
        base.push(BACKSLASH) + rest
    }
}

/// What `base` followed by `rest` is: an absolute `rest` stands alone.
pub open spec fn joined_path(base: Seq<u8>, rest: Seq<u8>, rules: PathRules) -> Seq<u8> {
    match rules {
        PathRules::Unix => if absolute(rest, rules) {
            rest
        } else if base.len() > 0 && base.last() != SLASH {
            base.push(SLASH) + rest
        } else {
            base + rest
        },
        PathRules::Windows => windows_joined(base, rest),
    }
}

/// How many leading bytes of a path its parent keeps in any case: prefix and root, and the `.`
/// behind a bare drive.
pub open spec fn kept_len(path: Seq<u8>, rules: PathRules) -> int {
    head_len(path, rules) + (if path_prefix(path, rules) is Some && !has_root(path, rules)
        && starts_current(body_of(path, rules), separator(path, rules)) {
        1int
    } else {
        0
    })
}

/// Whether a path has a parent: it ends with something else than its prefix or root.
pub open spec fn has_parent(path: Seq<u8>, rules: PathRules) -> bool {
    let all = parts(path, rules);
    all.len() > 0 && all.last() != PathPart::Root && !(all.last() is Prefix)
}

/// How many leading bytes of a path spell its parent, the shortest spelling with what it keeps
/// in any case.
pub open spec fn is_parent_end(path: Seq<u8>, end: int, rules: PathRules) -> bool {
    let above = parts(path, rules).drop_last();
    &&& has_parent(path, rules)
    &&& kept_len(path, rules) <= end <= path.len()
    &&& parts(path.take(end), rules) == above
    &&& forall|n: int|
        kept_len(path, rules) <= n < end ==> parts(#[trigger] path.take(n), rules) != above
}

fn carry_out(base: Vec<Component>, rest: Vec<Component>) -> (all: Vec<Component>)
    ensures
        all.deep_view() == carried_out(base.deep_view(), rest.deep_view()),
{
    let ghost start = base.deep_view();
    let ghost added = rest.deep_view();
    let mut all: Vec<Component> = base;
    let mut left: Vec<Component> = rest;
    let mut turned: Vec<Component> = Vec::new();
    assert(added.take(added.len() as int) =~= added);
    while left.len() > 0
        invariant
            turned@.len() + left@.len() == added.len(),
            forall|k: int| 0 <= k < left@.len() ==> (#[trigger] left@[k]).deep_view() == added[k],
            forall|k: int|
                0 <= k < turned@.len() ==> (#[trigger] turned@[k]).deep_view() == added[added.len()
                    - 1 - k],
        decreases left.len(),
    {
        match left.pop() {
            Some(part) => {
                turned.push(part);
            },
            None => {},
        }
    }
    assert(all.deep_view() == carried_out(start, added.take(0)));
    while turned.len() > 0
        invariant
            turned@.len() <= added.len(),
            forall|k: int|
                0 <= k < turned@.len() ==> (#[trigger] turned@[k]).deep_view() == added[added.len()
                    - 1 - k],
            all.deep_view() == carried_out(start, added.take(added.len() - turned@.len())),
        decreases turned.len(),
    {
        let ghost done = added.len() - turned@.len();
        let ghost before = all.deep_view();
        assert(added.take(done + 1).drop_last() =~= added.take(done));
        assert(added.take(done + 1).last() == added[done]);
        assert(turned@[turned@.len() - 1].deep_view() == added[done]);
        match turned.pop() {
            Some(Component::Root) => {
                if all.len() > 1 {
                    all.truncate(1);
                    assert(all.deep_view() =~= before.take(1));
                }
                let ghost kept = all.deep_view();
                all.push(Component::Root);
                assert(all.deep_view() =~= kept.push(PathPart::Root));
            },
            Some(Component::Current) => {},
            Some(Component::Parent) => {
                let named = if all.len() > 0 {
                    assert(before.last() == all@[all@.len() - 1].deep_view());
                    match &all[all.len() - 1] {
                        Component::Named(_) => true,
                        _ => false,
                    }
                } else {
                    false
                };
                if named {
                    let _ = all.pop();
                    assert(all.deep_view() =~= before.drop_last());
                }
            },
            Some(part) => {
                let ghost shown = part.deep_view();
                all.push(part);
                assert(all.deep_view() =~= before.push(shown));
            },
            None => {},
        }
    }
    assert(added.take(added.len() as int) =~= added);
    all
}

#[verifier::loop_isolation(false)]
fn spell(prefix: Vec<u8>, all: &Vec<Component>) -> (bytes: Vec<u8>)
    ensures
        bytes@ == spelled(prefix@, all.deep_view()),
{
    let ghost view = all.deep_view();
    let ghost start = prefix@;
    let mut bytes: Vec<u8> = prefix;
    if all.len() <= 1 {
        return bytes;
    }
    let mut i: usize = 1;
    assert(spelled(start, view.take(1)) == start);
    while i < all.len()
        invariant
            1 <= i <= all.len(),
            bytes@ == spelled(start, view.take(i as int)),
        decreases all.len() - i,
    {
        proof {
            assert(view.take(i + 1).drop_last() =~= view.take(i as int));
            assert(view.take(i + 1).last() == view[i as int]);
            assert(view.take(i + 1)[i - 1] == view[i - 1]);
            assert(view[i as int] == all@[i as int].deep_view());
            assert(view[i - 1] == all@[i - 1].deep_view());
        }
        let bare = match (&all[i - 1], &all[i]) {
            (Component::Root, _) => true,
            (_, Component::Root) => true,
            _ => false,
        };
        if !bare {
            bytes.push(BACKSLASH);
        }
        let ghost begun = bytes@;
        match &all[i] {
            Component::Prefix(_) => {
                assert(begun + Seq::<u8>::empty() =~= begun);
            },
            Component::Root => {
                bytes.push(BACKSLASH);
                assert(bytes@ =~= begun + seq![BACKSLASH]);
            },
            Component::Current => {
                bytes.push(DOT);
                assert(bytes@ =~= begun + seq![DOT]);
            },
            Component::Parent => {
                bytes.push(DOT);
                bytes.push(DOT);
                assert(bytes@ =~= begun + seq![DOT, DOT]);
            },
            Component::Named(name) => {
                append_bytes(&mut bytes, name.as_slice());
            },
        }
        i = i + 1;
    }
    assert(view.take(view.len() as int) =~= view);
    bytes
}

fn join_windows(base: &PathBuf, rest: &PathBuf) -> (path: PathBuf)
    ensures
        path@ == windows_joined(base@, rest@),
{
    let rules = PathRules::Windows;
    let head = read_head(base, rules);
    let other = read_head(rest, rules);
    if other.prefix.is_some() {
        return rest.clone();
    }
    let bytes: &Vec<u8> = &base.bytes;
    if head.verbatim && rest.bytes.len() > 0 {
        let all = carry_out(components(base, rules), components(rest, rules));
        let prefix = copy_range(bytes, 0, head.prefix_len);
        assert(prefix@ =~= base@.take(prefix_len(base@, rules)));
        return PathBuf { bytes: spell(prefix, &all) };
    }
    let mut joined: Vec<u8>;
    if other.root_written {
        joined = copy_range(bytes, 0, head.prefix_len);
        assert(joined@ =~= base@.take(prefix_len(base@, rules)));
    } else {
        joined = copy_bytes(bytes);
        let drive = match &head.prefix {
            Some(prefix) => prefix.kind == PrefixKind::Drive && bytes.len() == 2,
            None => false,
        };
        if bytes.len() > 0 && !does_separate(bytes[bytes.len() - 1], false) && !drive {
            joined.push(BACKSLASH);
        }
    }
    append_bytes(&mut joined, rest.bytes.as_slice());
    PathBuf { bytes: joined }
}

impl PathBuf {
    /// The path that a text spells.
    pub fn new(text: &str) -> (path: PathBuf)
        ensures
            path@ == text.spec_bytes(),
    {
        let mut bytes: Vec<u8> = Vec::new();
        append_bytes(&mut bytes, text.as_bytes());
        assert(bytes@ =~= text.spec_bytes());
        PathBuf { bytes }
    }

    pub fn from_bytes(bytes: &[u8]) -> (path: PathBuf)
        ensures
            path@ == bytes@,
    {
        let mut copy: Vec<u8> = Vec::new();
        append_bytes(&mut copy, bytes);
        assert(copy@ =~= bytes@);
        PathBuf { bytes: copy }
    }

    pub fn is_empty(&self) -> (answer: bool)
        ensures
            answer == (self@.len() == 0),
    {
        self.bytes.len() == 0
    }

    pub fn is_absolute(&self, rules: PathRules) -> (answer: bool)
        ensures
            answer == absolute(self@, rules),
    {
        let head = read_head(self, rules);
        (head.root_written || head.root_implied) && (rules == PathRules::Unix
            || head.prefix.is_some())
    }

    /// `rest` below this path, or `rest` itself where it is absolute.
    pub fn join(&self, rest: &PathBuf, rules: PathRules) -> (path: PathBuf)
        ensures
            path@ == joined_path(self@, rest@, rules),
    {
        match rules {
            PathRules::Unix => {
                if rest.is_absolute(rules) {
                    return rest.clone();
                }
                let mut bytes = copy_bytes(&self.bytes);
                if bytes.len() > 0 && bytes[bytes.len() - 1] != SLASH {
                    bytes.push(SLASH);
                }
                append_bytes(&mut bytes, rest.bytes.as_slice());
                PathBuf { bytes }
            },
            PathRules::Windows => join_windows(self, rest),
        }
    }

    /// The last component, where it is a name.
    pub fn file_name(&self, rules: PathRules) -> (name: Option<Vec<u8>>)
        ensures
            match name {
                Some(value) => parts(self@, rules).len() > 0 && parts(self@, rules).last()
                    == PathPart::Named(value@),
                None => parts(self@, rules).len() == 0 || !(parts(self@, rules).last() is Named),
            },
    {
        let all = components(self, rules);
        if all.len() == 0 {
            return None;
        }
        assert(parts(self@, rules).last() == all@[all.len() - 1].deep_view());
        match &all[all.len() - 1] {
            Component::Named(value) => Some(copy_bytes(value)),
            _ => None,
        }
    }

    /// The path without its last component, if it has one besides prefix and root.
    pub fn parent(&self, rules: PathRules) -> (found: Option<PathBuf>)
        ensures
            match found {
                Some(path) => is_parent_end(self@, path@.len() as int, rules) && path@
                    == self@.take(path@.len() as int),
                None => !has_parent(self@, rules),
            },
    {
        let mut all = components(self, rules);
        let ghost target = parts(self@, rules);
        if all.len() == 0 {
            return None;
        }
        assert(target.last() == all@[all.len() - 1].deep_view());
        match &all[all.len() - 1] {
            Component::Root => {
                return None;
            },
            Component::Prefix(_) => {
                return None;
            },
            _ => {},
        }
        let _ = all.pop();
        assert(all.deep_view() =~= target.drop_last());
        let head = read_head(self, rules);
        let body = read_body(self, &head, rules);
        let separator: u8 = if head.verbatim {
            BACKSLASH
        } else {
            SLASH
        };
        let kept = head.prefix.is_some() && !head.root_written && !head.root_implied && body.len()
            > 0 && body[0] == DOT && (body.len() == 1 || body[1] == separator);
        assert(body@.len() == self@.len() - head.length);
        let mut end: usize = if kept {
            head.length + 1
        } else {
            head.length
        };
        let ghost least = kept_len(self@, rules);
        assert(end == least);
        let mut prefix: PathBuf = PathBuf { bytes: copy_range(&self.bytes, 0, end) };
        assert(prefix@ =~= self@.take(end as int));
        loop
            invariant
                least == kept_len(self@, rules),
                0 <= least <= end <= self@.len(),
                prefix@ == self@.take(end as int),
                target == parts(self@, rules),
                has_parent(self@, rules),
                all.deep_view() == target.drop_last(),
                forall|n: int|
                    least <= n < end ==> parts(#[trigger] self@.take(n), rules)
                        != target.drop_last(),
            decreases self@.len() - end,
        {
            let candidate = components(&prefix, rules);
            if same_components(&candidate, &all) {
                return Some(prefix);
            }
            if end == self.bytes.len() {
                proof {
                    let n = lemma_parent_exists(self@, rules);
                    assert(parts(self@.take(n), rules) == target.drop_last());
                    assert(false);
                }
                return None;
            }
            prefix.bytes.push(self.bytes[end]);
            end = end + 1;
            assert(prefix@ =~= self@.take(end as int));
        }
    }

    /// This path with its last component replaced by `name`, or `name` added where the last
    /// component is no name.
    pub fn with_file_name(&self, name: &PathBuf, rules: PathRules) -> (path: PathBuf)
        ensures
            ({
                let all = parts(self@, rules);
                if all.len() > 0 && all.last() is Named {
                    exists|end: int|
                        #[trigger] is_parent_end(self@, end, rules) && path@ == joined_path(
                            self@.take(end),
                            name@,
                            rules,
                        )
                } else {
                    path@ == joined_path(self@, name@, rules)
                }
            }),
    {
        match self.file_name(rules) {
            Some(_) => match self.parent(rules) {
                Some(parent) => {
                    assert(is_parent_end(self@, parent@.len() as int, rules));
                    parent.join(name, rules)
                },
                None => self.join(name, rules),
            },
            None => self.join(name, rules),
        }
    }
}

proof fn lemma_pieces_split_at_last(body: Seq<u8>, separator: u8) -> (start: int)
    ensures
        0 <= start <= body.len(),
        start == 0 || body[start - 1] == separator,
        forall|i: int| start <= i < body.len() ==> body[i] != separator,
        pieces(body, separator).last() == body.skip(start),
        pieces(body.take(start), separator) == pieces(body, separator).drop_last().push(
            Seq::empty(),
        ),
        pieces(body, separator).len() > 0,
    decreases body.len(),
{
    if body.len() == 0 {
        assert(body.skip(0) =~= Seq::<u8>::empty());
        assert(body.take(0) =~= body);
        assert(pieces(body, separator).drop_last().push(Seq::empty()) =~= pieces(body, separator));
        0
    } else if body.last() == separator {
        lemma_pieces_nonempty(body.drop_last(), separator);
        let n = body.len() as int;
        assert(body.skip(n) =~= Seq::<u8>::empty());
        assert(body.take(n) =~= body);
        assert(pieces(body, separator).drop_last() =~= pieces(body.drop_last(), separator));
        assert(pieces(body, separator) =~= pieces(body, separator).drop_last().push(Seq::empty()));
        n
    } else {
        let before = body.drop_last();
        let start = lemma_pieces_split_at_last(before, separator);
        assert(body.take(start) =~= before.take(start));
        assert(body.skip(start) =~= before.skip(start).push(body.last()));
        assert(pieces(body, separator).drop_last() =~= pieces(before, separator).drop_last());
        assert forall|i: int| start <= i < body.len() implies body[i] != separator by {
            if i < before.len() {
                assert(before[i] != separator);
            }
        }
        start
    }
}

proof fn lemma_body_parts_empty_piece(split: Seq<Seq<u8>>, keep: bool)
    ensures
        body_parts(split.push(Seq::empty()), keep) == body_parts(split, keep),
{
    assert(split.push(Seq::<u8>::empty()).drop_last() =~= split);
}

/// Dropping the last component of a body leaves what some start of it names.
proof fn lemma_shorter_body(body: Seq<u8>, separator: u8, keep: bool, first: bool) -> (end: int)
    requires
        parts_of_body(body, separator, keep, first).len() > 0,
        separator != DOT,
        first ==> !keep,
    ensures
        0 <= end <= body.len(),
        parts_of_body(body.take(end), separator, keep, first) == parts_of_body(
            body,
            separator,
            keep,
            first,
        ).drop_last(),
    decreases body.len(),
{
    let start = lemma_pieces_split_at_last(body, separator);
    let split = pieces(body, separator);
    let piece = split.last();
    let prefix = body.take(start);
    let all = parts_of_body(body, separator, keep, first);
    lemma_body_parts_empty_piece(split.drop_last(), keep);
    assert(body_parts(pieces(prefix, separator), keep) == body_parts(split.drop_last(), keep));
    if start == 0 {
        assert(prefix =~= Seq::<u8>::empty());
        assert(body.skip(0) =~= body);
        assert(pieces(prefix, separator).len() == 1);
        assert(split.drop_last() =~= Seq::<Seq<u8>>::empty());
        assert(parts_of_body(prefix, separator, keep, first) =~= Seq::empty());
        assert(body.len() > 1 ==> body[1] != separator);
        assert(all.len() == 1);
        assert(all.drop_last() =~= parts_of_body(prefix, separator, keep, first));
        0
    } else {
        if body.len() > 0 && body[0] == DOT {
            assert(start != 1);
            assert(prefix.len() > 1);
            assert(prefix[1] == body[1]);
        }
        assert(starts_current(prefix, separator) == starts_current(body, separator)) by {
            assert(prefix[0] == body[0]);
        }
        if piece.len() == 0 || (is_dot(piece) && !keep) {
            assert(all =~= parts_of_body(prefix, separator, keep, first));
            if start < body.len() {
                let end = lemma_shorter_body(prefix, separator, keep, first);
                assert(prefix.take(end) =~= body.take(end));
                end
            } else {
                let shorter = body.drop_last();
                lemma_pieces_nonempty(shorter, separator);
                assert(pieces(body, separator).drop_last() =~= pieces(shorter, separator));
                if shorter.len() == 0 {
                    assert(body =~= seq![separator]);
                    assert(pieces(shorter, separator) =~= seq![Seq::<u8>::empty()]);
                    assert(body_parts(seq![Seq::<u8>::empty()], keep) =~= Seq::empty()) by {
                        lemma_body_parts_empty_piece(Seq::empty(), keep);
                        assert(Seq::<Seq<u8>>::empty().push(Seq::empty()) =~= seq![
                            Seq::<u8>::empty(),
                        ]);
                    }
                    assert(all =~= Seq::empty());
                    0
                } else {
                    assert(starts_current(shorter, separator) == starts_current(body, separator))
                        by {
                        assert(shorter[0] == body[0]);
                        if shorter.len() > 1 {
                            assert(shorter[1] == body[1]);
                        }
                    }
                    assert(parts_of_body(shorter, separator, keep, first) =~= all);
                    let end = lemma_shorter_body(shorter, separator, keep, first);
                    assert(shorter.take(end) =~= body.take(end));
                    end
                }
            }
        } else {
            assert(all.drop_last() =~= parts_of_body(prefix, separator, keep, first));
            start
        }
    }
}

proof fn lemma_component_end_take(path: Seq<u8>, n: int, start: int, verbatim: bool)
    requires
        0 <= start <= n <= path.len(),
    ensures
        component_end(path.take(n), start, verbatim) == if component_end(path, start, verbatim) < n {
            component_end(path, start, verbatim)
        } else {
            n
        },
    decreases n - start,
{
    lemma_component_end(path, start, verbatim);
    if start < n && !separates(path[start], verbatim) {
        lemma_component_end_take(path, n, start + 1, verbatim);
    }
}

/// What a path starts with is settled by the bytes that spell it.
proof fn lemma_prefix_settled(path: Seq<u8>, n: int, rules: PathRules)
    requires
        prefix_len(path, rules) <= n <= path.len(),
    ensures
        path_prefix(path.take(n), rules) == path_prefix(path, rules),
{
    lemma_prefix_fits(path, rules);
    let cut = path.take(n);
    if rules == PathRules::Windows {
        let (v, s) = (true, false);
        if n >= 8 {
            let end = component_end(path, 8, v);
            lemma_component_end(path, 8, v);
            lemma_component_end_take(path, n, 8, v);
            lemma_component_end(path, behind(path, end), v);
            if behind(path, end) <= n {
                lemma_component_end_take(path, n, behind(path, end), v);
            }
        }
        if n >= 4 {
            lemma_component_end(path, 4, v);
            lemma_component_end(path, 4, s);
            lemma_component_end_take(path, n, 4, v);
            lemma_component_end_take(path, n, 4, s);
        }
        if n >= 2 {
            let end = component_end(path, 2, s);
            lemma_component_end(path, 2, s);
            lemma_component_end_take(path, n, 2, s);
            lemma_component_end(path, behind(path, end), s);
            if behind(path, end) <= n {
                lemma_component_end_take(path, n, behind(path, end), s);
            }
        }
        if verbatim_start(path) {
            assert(n >= 4);
            assert(verbatim_start(cut));
            if share_start(path) {
                assert(n >= 8);
                let a = share_prefix(PrefixKind::VerbatimShare, path, 8, v);
                let b = share_prefix(PrefixKind::VerbatimShare, cut, 8, v);
                assert(a.first =~= b.first);
                assert(a.second =~= b.second);
            } else if drive_at(path, 4) && (path.len() == 6 || separates(path[6], false)) {
                assert(n >= 6);
                assert(drive_at(cut, 4));
                assert(!share_start(cut));
            } else {
                assert(!share_start(cut));
                let a = named_prefix(PrefixKind::Verbatim, path, 4, v);
                let b = named_prefix(PrefixKind::Verbatim, cut, 4, v);
                assert(a.first =~= b.first);
                if drive_at(cut, 4) {
                    assert(drive_at(path, 4));
                    assert(path.len() > 6 && !separates(path[6], false));
                    assert(component_end(path, 4, v) > 6) by {
                        reveal_with_fuel(component_end, 4);
                    }
                    assert(n > 6);
                    assert(cut[6] == path[6]);
                }
            }
        } else if path.len() >= 2 && separates(path[0], false) && separates(path[1], false) {
            if path.len() >= 4 && path[2] == DOT && separates(path[3], false) {
                assert(n >= 4);
                let a = named_prefix(PrefixKind::Device, path, 4, s);
                let b = named_prefix(PrefixKind::Device, cut, 4, s);
                assert(a.first =~= b.first);
            } else if n >= 2 {
                let a = share_prefix(PrefixKind::Share, path, 2, s);
                let b = share_prefix(PrefixKind::Share, cut, 2, s);
                if a.first.len() > 0 && a.second.len() > 0 {
                    assert(a.first =~= b.first);
                    assert(a.second =~= b.second);
                } else {
                    assert(b.first.len() == 0 || b.second.len() == 0);
                }
            }
        }
    }
}

/// Cutting a path behind its prefix and root cuts its body.
proof fn lemma_cut_body(path: Seq<u8>, n: int, rules: PathRules)
    requires
        head_len(path, rules) <= n <= path.len(),
    ensures
        path_prefix(path.take(n), rules) == path_prefix(path, rules),
        head_len(path.take(n), rules) == head_len(path, rules),
        head_parts(path.take(n), rules) == head_parts(path, rules),
        is_verbatim(path.take(n), rules) == is_verbatim(path, rules),
        separator(path.take(n), rules) == separator(path, rules),
        body_of(path.take(n), rules) == body_of(path, rules).take(n - head_len(path, rules)),
{
    lemma_prefix_fits(path, rules);
    lemma_prefix_settled(path, n, rules);
    let cut = path.take(n);
    assert(root_written(cut, rules) == root_written(path, rules));
    assert(body_of(cut, rules) =~= body_of(path, rules).take(n - head_len(path, rules)));
}

/// A `.` alone behind a bare drive names nothing.
proof fn lemma_lone_dot(body: Seq<u8>, separator: u8)
    requires
        starts_current(body, separator),
        separator != DOT,
    ensures
        parts_of_body(body.take(1), separator, false, false) == parts_of_body(
            body.take(0),
            separator,
            false,
            false,
        ),
{
    let dot = body.take(1);
    let none = body.take(0);
    assert(dot =~= none.push(DOT));
    assert(dot.drop_last() =~= none);
    assert(none =~= Seq::<u8>::empty());
    assert(pieces(none, separator) =~= seq![Seq::<u8>::empty()]);
    assert(Seq::<u8>::empty().push(DOT) =~= seq![DOT]);
    assert(pieces(dot, separator) =~= seq![seq![DOT]]);
    assert(seq![seq![DOT]].drop_last() =~= Seq::<Seq<u8>>::empty());
    assert(seq![Seq::<u8>::empty()].drop_last() =~= Seq::<Seq<u8>>::empty());
    reveal_with_fuel(body_parts, 2);
}

/// Dropping the last component of a path leaves what some start of it names.
proof fn lemma_parent_exists(path: Seq<u8>, rules: PathRules) -> (end: int)
    requires
        has_parent(path, rules),
    ensures
        kept_len(path, rules) <= end <= path.len(),
        parts(path.take(end), rules) == parts(path, rules).drop_last(),
{
    lemma_prefix_fits(path, rules);
    let head = head_len(path, rules);
    let body = body_of(path, rules);
    let mark = separator(path, rules);
    let keep = is_verbatim(path, rules);
    let first = head == 0;
    let inner = parts_of_body(body, mark, keep, first);
    assert(body.len() == path.len() - head);
    assert(inner.len() > 0) by {
        if inner.len() == 0 {
            assert(parts(path, rules) =~= head_parts(path, rules));
        }
    }
    assert(first ==> !keep);
    let found = lemma_shorter_body(body, mark, keep, first);
    let dot = kept_len(path, rules) > head;
    if dot {
        lemma_lone_dot(body, mark);
        assert(!first);
        assert(!keep);
    }
    let end = if dot && found == 0 {
        1
    } else {
        found
    };
    assert(parts_of_body(body.take(end), mark, keep, first) == inner.drop_last());
    lemma_cut_body(path, head + end, rules);
    assert(parts(path.take(head + end), rules) =~= parts(path, rules).drop_last());
    head + end
}

impl<'a> From<&'a str> for PathBuf {
    fn from(text: &'a str) -> (path: PathBuf)
        ensures
            path@ == text.spec_bytes(),
    {
        PathBuf::new(text)
    }
}

impl<'a> vstd::std_specs::convert::FromSpecImpl<&'a str> for PathBuf {
    open spec fn obeys_from_spec() -> bool {
        false
    }

    open spec fn from_spec(text: &'a str) -> Self {
        arbitrary()
    }
}

pub open spec fn prefix_place(kind: PrefixKind) -> int {
    match kind {
        PrefixKind::Verbatim => 0,
        PrefixKind::VerbatimShare => 1,
        PrefixKind::VerbatimDrive => 2,
        PrefixKind::Device => 3,
        PrefixKind::Share => 4,
        PrefixKind::Drive => 5,
    }
}

/// Order of two prefixes: by their kind, then by what they name.
pub open spec fn rank_prefix(left: PathPrefixV, right: PathPrefixV) -> Rank {
    rank_int(prefix_place(left.kind), prefix_place(right.kind)).or_else_spec(
        rank_bytes(left.first, right.first).or_else_spec(rank_bytes(left.second, right.second)),
    )
}

/// Order of two components: a prefix first, then the root, then `.`, then `..`, then names by
/// their bytes.
pub open spec fn rank_part(left: PathPart, right: PathPart) -> Rank {
    match (left, right) {
        (PathPart::Prefix(l), PathPart::Prefix(r)) => rank_prefix(l, r),
        (PathPart::Named(l), PathPart::Named(r)) => rank_bytes(l, r),
        _ => rank_int(part_kind(left), part_kind(right)),
    }
}

pub open spec fn part_kind(part: PathPart) -> int {
    match part {
        PathPart::Prefix(_) => 0,
        PathPart::Root => 1,
        PathPart::Current => 2,
        PathPart::Parent => 3,
        PathPart::Named(_) => 4,
    }
}

/// Lexicographic order of component sequences.
pub open spec fn rank_parts(left: Seq<PathPart>, right: Seq<PathPart>) -> Rank
    decreases left.len(),
{
    if left.len() == 0 {
        if right.len() == 0 {
            Rank::Equal
        } else {
            Rank::Less
        }
    } else if right.len() == 0 {
        Rank::Greater
    } else {
        rank_part(left[0], right[0]).or_else_spec(
            rank_parts(left.drop_first(), right.drop_first()),
        )
    }
}

/// Order of two paths, component by component.
pub open spec fn rank_paths(left: Seq<u8>, right: Seq<u8>, rules: PathRules) -> Rank {
    rank_parts(parts(left, rules), parts(right, rules))
}

fn component_kind(part: &Component) -> (kind: u8)
    ensures
        kind as int == part_kind(part.deep_view()),
{
    match part {
        Component::Prefix(_) => 0,
        Component::Root => 1,
        Component::Current => 2,
        Component::Parent => 3,
        Component::Named(_) => 4,
    }
}

fn kind_place(kind: PrefixKind) -> (place: u8)
    ensures
        place as int == prefix_place(kind),
{
    match kind {
        PrefixKind::Verbatim => 0,
        PrefixKind::VerbatimShare => 1,
        PrefixKind::VerbatimDrive => 2,
        PrefixKind::Device => 3,
        PrefixKind::Share => 4,
        PrefixKind::Drive => 5,
    }
}

fn compare_small(left: u8, right: u8) -> (result: Rank)
    ensures
        result == rank_int(left as int, right as int),
{
    if left < right {
        Rank::Less
    } else if left == right {
        Rank::Equal
    } else {
        Rank::Greater
    }
}

fn compare_components(left: &Component, right: &Component) -> (result: Rank)
    ensures
        result == rank_part(left.deep_view(), right.deep_view()),
{
    match (left, right) {
        (Component::Prefix(l), Component::Prefix(r)) => compare_small(
            kind_place(l.kind),
            kind_place(r.kind),
        ).or_else(
            compare_bytes(l.first.as_slice(), r.first.as_slice()).or_else(
                compare_bytes(l.second.as_slice(), r.second.as_slice()),
            ),
        ),
        (Component::Named(l), Component::Named(r)) => compare_bytes(l.as_slice(), r.as_slice()),
        _ => compare_small(component_kind(left), component_kind(right)),
    }
}

/// Compares two paths component by component.
pub fn compare_paths(left: &PathBuf, right: &PathBuf, rules: PathRules) -> (result: Rank)
    ensures
        result == rank_paths(left@, right@, rules),
{
    let l = components(left, rules);
    let r = components(right, rules);
    compare_all(&l, &r)
}

#[verifier::loop_isolation(false)]
fn compare_all(l: &Vec<Component>, r: &Vec<Component>) -> (result: Rank)
    ensures
        result == rank_parts(l.deep_view(), r.deep_view()),
{
    let ghost lv = l.deep_view();
    let ghost rv = r.deep_view();
    let mut i: usize = 0;
    assert(lv.skip(0) =~= lv);
    assert(rv.skip(0) =~= rv);
    while i < l.len() && i < r.len()
        invariant
            i <= l.len(),
            i <= r.len(),
            lv == l.deep_view(),
            rv == r.deep_view(),
            rank_parts(lv, rv) == rank_parts(lv.skip(i as int), rv.skip(i as int)),
        decreases l.len() - i,
    {
        assert(lv.skip(i as int).drop_first() =~= lv.skip(i + 1));
        assert(rv.skip(i as int).drop_first() =~= rv.skip(i + 1));
        assert(lv.skip(i as int)[0] == l@[i as int].deep_view());
        assert(rv.skip(i as int)[0] == r@[i as int].deep_view());
        let step = compare_components(&l[i], &r[i]);
        if step != Rank::Equal {
            return step;
        }
        i = i + 1;
    }
    if i < l.len() {
        Rank::Greater
    } else if i < r.len() {
        Rank::Less
    } else {
        Rank::Equal
    }
}

proof fn lemma_rank_part_flip(left: PathPart, right: PathPart)
    ensures
        rank_part(left, right) == Rank::Less <==> rank_part(right, left) == Rank::Greater,
        rank_part(left, right) == Rank::Equal <==> rank_part(right, left) == Rank::Equal,
{
    if left is Named && right is Named {
        lemma_rank_bytes_flip(left->Named_0, right->Named_0);
    } else if left is Prefix && right is Prefix {
        lemma_rank_bytes_flip(left->Prefix_0.first, right->Prefix_0.first);
        lemma_rank_bytes_flip(left->Prefix_0.second, right->Prefix_0.second);
    }
}

proof fn lemma_rank_part_transitive(a: PathPart, b: PathPart, c: PathPart)
    requires
        rank_part(a, b) != Rank::Greater,
        rank_part(b, c) != Rank::Greater,
    ensures
        rank_part(a, c) != Rank::Greater,
        rank_part(a, c) == Rank::Equal ==> rank_part(a, b) == Rank::Equal && rank_part(b, c)
            == Rank::Equal,
{
    if a is Named && b is Named && c is Named {
        lemma_rank_bytes_transitive(a->Named_0, b->Named_0, c->Named_0);
    } else if a is Prefix && b is Prefix && c is Prefix {
        let (l, m, r) = (a->Prefix_0, b->Prefix_0, c->Prefix_0);
        if l.kind == m.kind && m.kind == r.kind {
            lemma_rank_bytes_flip(l.first, m.first);
            lemma_rank_bytes_flip(m.first, r.first);
            lemma_rank_bytes_flip(l.first, r.first);
            lemma_rank_bytes_transitive(l.first, m.first, r.first);
            if rank_bytes(l.first, m.first) == Rank::Equal && rank_bytes(m.first, r.first)
                == Rank::Equal {
                lemma_rank_bytes_transitive(r.first, m.first, l.first);
                lemma_rank_bytes_transitive(l.second, m.second, r.second);
            }
        }
    }
}

proof fn lemma_rank_parts_flip(left: Seq<PathPart>, right: Seq<PathPart>)
    ensures
        rank_parts(left, right) == Rank::Less <==> rank_parts(right, left) == Rank::Greater,
        rank_parts(left, right) == Rank::Equal <==> rank_parts(right, left) == Rank::Equal,
    decreases left.len(),
{
    if left.len() > 0 && right.len() > 0 {
        lemma_rank_part_flip(left[0], right[0]);
        lemma_rank_part_flip(right[0], left[0]);
        lemma_rank_parts_flip(left.drop_first(), right.drop_first());
    }
}

proof fn lemma_rank_parts_transitive(a: Seq<PathPart>, b: Seq<PathPart>, c: Seq<PathPart>)
    requires
        rank_parts(a, b) != Rank::Greater,
        rank_parts(b, c) != Rank::Greater,
    ensures
        rank_parts(a, c) != Rank::Greater,
        rank_parts(a, c) == Rank::Equal ==> rank_parts(a, b) == Rank::Equal && rank_parts(b, c)
            == Rank::Equal,
    decreases a.len(),
{
    if a.len() > 0 && b.len() > 0 && c.len() > 0 {
        lemma_rank_part_transitive(a[0], b[0], c[0]);
        if rank_part(a[0], b[0]) == Rank::Equal && rank_part(b[0], c[0]) == Rank::Equal {
            lemma_rank_part_flip(a[0], b[0]);
            lemma_rank_part_flip(b[0], c[0]);
            lemma_rank_part_transitive(c[0], b[0], a[0]);
            lemma_rank_part_flip(a[0], c[0]);
            lemma_rank_parts_transitive(a.drop_first(), b.drop_first(), c.drop_first());
        }
    }
}

pub proof fn lemma_rank_paths_consistent(rules: PathRules)
    ensures
        consistent(|a: Seq<u8>, b: Seq<u8>| rank_paths(a, b, rules)),
{
    let rank = |a: Seq<u8>, b: Seq<u8>| rank_paths(a, b, rules);
    assert forall|a: Seq<u8>, b: Seq<u8>|
        #![trigger rank(a, b)]
        {
            &&& rank(a, b) == Rank::Less <==> rank(b, a) == Rank::Greater
            &&& rank(a, b) == Rank::Equal <==> rank(b, a) == Rank::Equal
        } by {
        lemma_rank_parts_flip(parts(a, rules), parts(b, rules));
    }
    assert forall|a: Seq<u8>, b: Seq<u8>, c: Seq<u8>|
        #![trigger rank(a, b), rank(b, c)]
        rank(a, b) != Rank::Greater && rank(b, c) != Rank::Greater implies {
        &&& rank(a, c) != Rank::Greater
        &&& rank(a, c) == Rank::Equal ==> rank(a, b) == Rank::Equal && rank(b, c) == Rank::Equal
    } by {
        lemma_rank_parts_transitive(parts(a, rules), parts(b, rules), parts(c, rules));
    }
}

/// A Windows path without its verbatim prefix: what follows `\\?\UNC\` names a share, what
/// follows `\\?\` stands for itself.
pub open spec fn without_verbatim(path: Seq<char>) -> Seq<char> {
    if begins_with(path, r"\\?\UNC\"@) {
        r"\\"@ + path.skip(r"\\?\UNC\"@.len() as int)
    } else if begins_with(path, r"\\?\"@) {
        path.skip(r"\\?\"@.len() as int)
    } else {
        path
    }
}

/// Hides the verbatim prefix of a Windows path.
pub fn strip_windows_verbatim_prefix(value: &str) -> (text: String)
    ensures
        text@ == without_verbatim(value@),
{
    match strip_prefix(value, r"\\?\UNC\") {
        Some(rest) => concat(r"\\", rest.as_str()),
        None => match strip_prefix(value, r"\\?\") {
            Some(rest) => rest,
            None => owned(value),
        },
    }
}

/// A drive letter, a colon and a slash.
pub open spec fn drive_root(path: Seq<char>) -> bool {
    path.len() == 3 && ascii_letter(path[0]) && path[1] == ':' && path[2] == '/'
}

pub fn is_windows_drive_root(value: &str) -> (answer: bool)
    ensures
        answer == drive_root(value@),
{
    let chars = chars_of(value);
    is_drive_root(&chars)
}

fn is_drive_root(chars: &Vec<char>) -> (answer: bool)
    ensures
        answer == drive_root(chars@),
{
    chars.len() == 3 && is_ascii_letter(chars[0]) && chars[1] == ':' && chars[2] == '/'
}

/// Slashes in place of backslashes.
pub open spec fn slashed(path: Seq<char>) -> Seq<char> {
    path.map_values(
        |c: char|
            if c == '\u{5c}' {
                '/'
            } else {
                c
            },
    )
}

/// A path without the slashes at its end; a root keeps its one.
pub open spec fn without_end_slashes(path: Seq<char>) -> Seq<char>
    decreases path.len(),
{
    if path.len() > 1 && path.last() == '/' && !drive_root(path) {
        without_end_slashes(path.drop_last())
    } else {
        path
    }
}

/// What tells two Windows paths apart: neither the verbatim prefix nor letter case, the kind
/// of separators or separators at the end do.
pub open spec fn windows_key(path: Seq<char>) -> Seq<char> {
    without_end_slashes(lowercase_of(slashed(without_verbatim(path))))
}

/// The key by which Windows paths are compared.
#[verifier::loop_isolation(false)]
pub fn windows_path_key(value: &str) -> (key: String)
    ensures
        key@ == windows_key(value@),
{
    let plain = strip_windows_verbatim_prefix(value);
    let chars = chars_of(plain.as_str());
    let mut turned: Vec<char> = Vec::new();
    let mut i: usize = 0;
    while i < chars.len()
        invariant
            i <= chars.len(),
            turned@ == slashed(chars@.take(i as int)),
        decreases chars.len() - i,
    {
        turned.push(
            if chars[i] == '\u{5c}' {
                '/'
            } else {
                chars[i]
            },
        );
        i = i + 1;
        assert(turned@ =~= slashed(chars@.take(i as int)));
    }
    assert(chars@.take(chars@.len() as int) =~= chars@);
    let lowered = lowercase(text_of(&turned).as_str());
    strip_end_slashes(lowered.as_str())
}

/// A path without the slashes at its end.
pub fn strip_end_slashes(path: &str) -> (text: String)
    ensures
        text@ == without_end_slashes(path@),
{
    let mut chars = chars_of(path);
    while chars.len() > 1 && chars[chars.len() - 1] == '/' && !is_drive_root(&chars)
        invariant
            without_end_slashes(chars@) == without_end_slashes(path@),
        decreases chars.len(),
    {
        let ghost before = chars@;
        let _ = chars.pop();
        assert(chars@ =~= before.drop_last());
    }
    text_of(&chars)
}

/// What a Windows host compares a path by.
pub open spec fn host_key(path: Seq<u8>) -> Seq<char> {
    windows_key(lossy_text(path))
}

/// Whether two paths name one place by the rules of the host.
pub open spec fn same_place(left: Seq<u8>, right: Seq<u8>, rules: PathRules) -> bool {
    match rules {
        PathRules::Unix => same_path(left, right, rules),
        PathRules::Windows => host_key(left) == host_key(right),
    }
}

/// Whether a key is another one, or goes on behind it at a separator.
pub open spec fn key_within(path: Seq<char>, base: Seq<char>) -> bool {
    path == base || begins_with(path, base) && (base.len() > 0 && base.last() == '/'
        || path.len() > base.len() && path[base.len() as int] == '/')
}

/// Whether a path is another one or lies below it, by the rules of the host.
pub open spec fn within(path: Seq<u8>, base: Seq<u8>, rules: PathRules) -> bool {
    match rules {
        PathRules::Unix => below(path, base),
        PathRules::Windows => key_within(host_key(path), host_key(base)),
    }
}

/// How a path is shown to people: on a Windows host without its verbatim prefix.
pub open spec fn shown_path(path: Seq<u8>, rules: PathRules) -> Seq<char> {
    match rules {
        PathRules::Unix => lossy_text(path),
        PathRules::Windows => without_verbatim(lossy_text(path)),
    }
}

/// Compare filesystem paths by the rules of the host.
pub fn equivalent(left: &PathBuf, right: &PathBuf, rules: PathRules) -> (same: bool)
    ensures
        same == same_place(left@, right@, rules),
{
    match rules {
        PathRules::Unix => equal_paths(left, right, rules),
        PathRules::Windows => {
            let l = windows_path_key(path_text(left).as_str());
            let r = windows_path_key(path_text(right).as_str());
            same_text(l.as_str(), r.as_str())
        },
    }
}

/// Whether a key is another one, or goes on behind it at a separator.
pub fn is_key_within(path: &str, base: &str) -> (answer: bool)
    ensures
        answer == key_within(path@, base@),
{
    let inner = chars_of(path);
    let outer = chars_of(base);
    if outer.len() > inner.len() {
        return false;
    }
    let mut i: usize = 0;
    while i < outer.len()
        invariant
            i <= outer.len() <= inner.len(),
            inner@ == path@,
            outer@ == base@,
            forall|k: int| 0 <= k < i ==> inner@[k] == outer@[k],
        decreases outer.len() - i,
    {
        if inner[i] != outer[i] {
            assert(path@.take(base@.len() as int)[i as int] != base@[i as int]);
            return false;
        }
        i = i + 1;
    }
    assert(path@.take(base@.len() as int) =~= base@);
    if inner.len() == outer.len() {
        assert(path@ =~= base@);
        return true;
    }
    outer.len() > 0 && outer[outer.len() - 1] == '/' || inner[outer.len()] == '/'
}

/// Return whether `path` is `base` or is nested below it, by the rules of the host.
pub fn starts_with(path: &PathBuf, base: &PathBuf, rules: PathRules) -> (answer: bool)
    ensures
        answer == within(path@, base@, rules),
{
    match rules {
        PathRules::Unix => lies_below(path, base),
        PathRules::Windows => {
            let inner = windows_path_key(path_text(path).as_str());
            let outer = windows_path_key(path_text(base).as_str());
            is_key_within(inner.as_str(), outer.as_str())
        },
    }
}

/// The path as text for people to read: the verbatim prefix of Windows is hidden.
pub fn display(path: &PathBuf, rules: PathRules) -> (text: String)
    ensures
        text@ == shown_path(path@, rules),
{
    let text = path_text(path);
    match rules {
        PathRules::Unix => text,
        PathRules::Windows => strip_windows_verbatim_prefix(text.as_str()),
    }
}

/// Whether some path among `paths` names the same place as `path`.
pub open spec fn has_place(paths: Seq<Seq<u8>>, path: Seq<u8>, rules: PathRules) -> bool {
    exists|i: int| 0 <= i < paths.len() && same_place(#[trigger] paths[i], path, rules)
}

/// Whether some path among `paths` names the same place as `path`.
pub fn contains_place(paths: &Vec<PathBuf>, path: &PathBuf, rules: PathRules) -> (answer: bool)
    ensures
        answer == has_place(paths.deep_view(), path@, rules),
{
    let mut i: usize = 0;
    while i < paths.len()
        invariant
            i <= paths.len(),
            forall|k: int|
                0 <= k < i ==> !same_place(#[trigger] paths.deep_view()[k], path@, rules),
        decreases paths.len() - i,
    {
        if equivalent(&paths[i], path, rules) {
            assert(same_place(paths.deep_view()[i as int], path@, rules));
            return true;
        }
        i = i + 1;
    }
    false
}

/// Naming one place is an equivalence, whatever the rules.
pub proof fn lemma_same_place_is_equivalence(
    a: Seq<u8>,
    b: Seq<u8>,
    c: Seq<u8>,
    rules: PathRules,
)
    ensures
        same_place(a, a, rules),
        same_place(a, b, rules) == same_place(b, a, rules),
        same_place(a, b, rules) && same_place(b, c, rules) ==> same_place(a, c, rules),
{
}

/// A path lies below every path that names the same place.
pub proof fn lemma_same_place_is_within(path: Seq<u8>, base: Seq<u8>, rules: PathRules)
    requires
        same_place(path, base, rules),
    ensures
        within(path, base, rules),
{
    if rules == PathRules::Unix {
        let all = parts(path, PathRules::Unix);
        assert(all.take(parts(base, PathRules::Unix).len() as int) =~= all);
    }
}

/// The kind of separators makes no difference to the key of a Windows path.
pub proof fn lemma_windows_key_ignores_separators(left: Seq<char>, right: Seq<char>)
    requires
        slashed(without_verbatim(left)) == slashed(without_verbatim(right)),
    ensures
        windows_key(left) == windows_key(right),
{
}

/// The verbatim prefix makes no difference to the key of a Windows path: neither that of a
/// drive nor that of a share.
pub proof fn lemma_windows_key_ignores_verbatim_prefix(path: Seq<char>, share: Seq<char>)
    requires
        !begins_with(path, r"\\?\"@),
        !begins_with(path, r"UNC\"@),
        !begins_with(share, r"?\"@),
    ensures
        windows_key(r"\\?\"@ + path) == windows_key(path),
        windows_key(r"\\?\UNC\"@ + share) == windows_key(r"\\"@ + share),
{
    reveal_strlit(r"\\?\UNC\");
    reveal_strlit(r"\\?\");
    reveal_strlit(r"UNC\");
    reveal_strlit(r"?\");
    reveal_strlit(r"\\");
    let drive = r"\\?\"@ + path;
    assert(drive.take(4) =~= r"\\?\"@);
    if begins_with(drive, r"\\?\UNC\"@) {
        assert forall|i: int| 0 <= i < 4 implies path[i] == r"UNC\"@[i] by {
            assert(drive.take(8)[i + 4] == r"\\?\UNC\"@[i + 4]);
        }
        assert(path.take(4) =~= r"UNC\"@);
        assert(false);
    }
    assert(drive.skip(4) =~= path);
    if begins_with(path, r"\\?\UNC\"@) {
        assert(path.take(4) =~= r"\\?\"@);
        assert(false);
    }
    let verbatim = r"\\?\UNC\"@ + share;
    let plain = r"\\"@ + share;
    assert(verbatim.take(8) =~= r"\\?\UNC\"@);
    assert(verbatim.skip(8) =~= share);
    if begins_with(plain, r"\\?\UNC\"@) {
        assert(plain.take(4) =~= plain.take(8).take(4));
        assert(plain.take(4) =~= r"\\?\"@);
    }
    if begins_with(plain, r"\\?\"@) {
        assert forall|i: int| 0 <= i < 2 implies share[i] == r"?\"@[i] by {
            assert(plain[i + 2] == plain.take(4)[i + 2]);
        }
        assert(share.take(2) =~= r"?\"@);
        assert(false);
    }
}

/// A slash at the end of a path goes, unless it makes the path a root.
pub proof fn lemma_end_slash_goes(path: Seq<char>)
    requires
        path.len() > 0,
        !drive_root(path.push('/')),
    ensures
        without_end_slashes(path.push('/')) == without_end_slashes(path),
{
    assert(path.push('/').drop_last() =~= path);
}

} // verus!
