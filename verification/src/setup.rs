//! The first start: which directories are searched for repositories.

use crate::config::{below_tilde, SearchDirEntry};
use crate::input::{Edit, TextInput, TextInputV};
use crate::keyboard::{KeyCode, KeyEvent};
use crate::order::{compare_text, consistent, in_order, lemma_consistent_total, lemma_rank_text_consistent, lemma_sort_map, lemma_stable_sort, not_after, rank_text, stable_rearrangement, stable_sort, stable_sorted, Rank};
use crate::path::{joined_path, PathBuf, PathRules};
use crate::text::{ascii_digit, ascii_letter, begins_with, byte_len, chars_of, concat, control_char, decimal, decimal_text, is_ascii_digit, is_ascii_letter, is_control, length, lowercase, lowercase_of, owned, same_text, starts_with, text_of, trim, trimmed};
use vstd::prelude::*;
use vstd::string::*;
use vstd::utf8::encode_utf8;

verus! {

/// A directory that was added.
#[derive(Debug, PartialEq, Eq)]
pub struct SetupDir {
    pub path: String,
    pub depth: u16,
    pub include_non_git: Option<bool>,
}

#[verifier::ext_equal]
pub struct SetupDirV {
    pub path: Seq<char>,
    pub depth: u16,
    pub include_non_git: Option<bool>,
}

impl DeepView for SetupDir {
    type V = SetupDirV;

    open spec fn deep_view(&self) -> SetupDirV {
        SetupDirV {
            path: self.path@,
            depth: self.depth,
            include_non_git: self.include_non_git,
        }
    }
}

/// Which folders of a directory are listed.
#[derive(Debug, Clone, Copy, PartialEq, Eq, Structural)]
pub enum FolderMode {
    GitRepositoriesOnly,
    AllFolders,
}

impl FolderMode {
    pub open spec fn other_spec(self) -> FolderMode {
        match self {
            FolderMode::GitRepositoriesOnly => FolderMode::AllFolders,
            FolderMode::AllFolders => FolderMode::GitRepositoriesOnly,
        }
    }

    pub fn previous(self) -> (mode: FolderMode)
        ensures
            mode == self.other_spec(),
    {
        match self {
            FolderMode::GitRepositoriesOnly => FolderMode::AllFolders,
            FolderMode::AllFolders => FolderMode::GitRepositoriesOnly,
        }
    }

    pub fn next(self) -> (mode: FolderMode)
        ensures
            mode == self.other_spec(),
    {
        self.previous()
    }

    pub open spec fn setting(self) -> Option<bool> {
        match self {
            FolderMode::GitRepositoriesOnly => None,
            FolderMode::AllFolders => Some(true),
        }
    }

    /// What is written of the mode: nothing for the usual one.
    pub fn include_non_git(self) -> (setting: Option<bool>)
        ensures
            setting == self.setting(),
    {
        match self {
            FolderMode::GitRepositoriesOnly => None,
            FolderMode::AllFolders => Some(true),
        }
    }
}

impl Default for FolderMode {
    fn default() -> (mode: Self)
        ensures
            mode == FolderMode::GitRepositoriesOnly,
    {
        FolderMode::GitRepositoriesOnly
    }
}

#[derive(Debug, PartialEq, Eq)]
pub enum SetupStep {
    Welcome,
    Directories,
    Depth { path: String },
    FolderMode { path: String, depth: u16 },
    Confirm,
}

#[verifier::ext_equal]
pub enum SetupStepV {
    Welcome,
    Directories,
    Depth { path: Seq<char> },
    FolderMode { path: Seq<char>, depth: u16 },
    Confirm,
}

impl DeepView for SetupStep {
    type V = SetupStepV;

    open spec fn deep_view(&self) -> SetupStepV {
        match self {
            SetupStep::Welcome => SetupStepV::Welcome,
            SetupStep::Directories => SetupStepV::Directories,
            SetupStep::Depth { path } => SetupStepV::Depth { path: path@ },
            SetupStep::FolderMode { path, depth } => SetupStepV::FolderMode {
                path: path@,
                depth: *depth,
            },
            SetupStep::Confirm => SetupStepV::Confirm,
        }
    }
}

#[derive(Debug, PartialEq, Eq)]
pub struct SetupState {
    pub step: SetupStep,
    pub input: TextInput,
    pub completions: Vec<String>,
    pub selected_completion: Option<usize>,
    pub dirs: Vec<SetupDir>,
    pub message: Option<String>,
    /// Whether the depth is the one that was offered, so that the first digit replaces it.
    pub depth_default_pristine: bool,
    pub folder_mode: FolderMode,
}

#[verifier::ext_equal]
pub struct SetupV {
    pub step: SetupStepV,
    pub input: TextInputV,
    pub completions: Seq<Seq<char>>,
    pub selected_completion: Option<usize>,
    pub dirs: Seq<SetupDirV>,
    pub message: Option<Seq<char>>,
    pub depth_default_pristine: bool,
    pub folder_mode: FolderMode,
}

impl DeepView for SetupState {
    type V = SetupV;

    open spec fn deep_view(&self) -> SetupV {
        SetupV {
            step: self.step.deep_view(),
            input: self.input.deep_view(),
            completions: self.completions.deep_view(),
            selected_completion: self.selected_completion,
            dirs: self.dirs.deep_view(),
            message: self.message.deep_view(),
            depth_default_pristine: self.depth_default_pristine,
            folder_mode: self.folder_mode,
        }
    }
}

impl Default for SetupState {
    fn default() -> (state: Self)
        ensures
            state.deep_view() == (SetupV {
                step: SetupStepV::Welcome,
                input: TextInputV { text: Seq::empty(), cursor: 0 },
                completions: Seq::empty(),
                selected_completion: None,
                dirs: Seq::empty(),
                message: None,
                depth_default_pristine: false,
                folder_mode: FolderMode::GitRepositoriesOnly,
            }),
    {
        let state = SetupState {
            step: SetupStep::Welcome,
            input: TextInput::new(),
            completions: Vec::new(),
            selected_completion: None,
            dirs: Vec::new(),
            message: None,
            depth_default_pristine: false,
            folder_mode: FolderMode::GitRepositoriesOnly,
        };
        assert(state.completions.deep_view() =~= Seq::<Seq<char>>::empty());
        assert(state.dirs.deep_view() =~= Seq::<SetupDirV>::empty());
        state
    }
}

pub open spec fn separator(c: char) -> bool {
    c == '/' || c == '\\'
}

fn is_separator(c: char) -> (answer: bool)
    ensures
        answer == separator(c),
{
    c == '/' || c == '\\'
}

/// A path without the separators at its end.
pub open spec fn without_separators(path: Seq<char>) -> Seq<char>
    decreases path.len(),
{
    if path.len() > 0 && separator(path.last()) {
        without_separators(path.drop_last())
    } else {
        path
    }
}

/// How many parts stand between separators.
pub open spec fn part_count(path: Seq<char>) -> nat
    decreases path.len(),
{
    if path.len() == 0 {
        0
    } else if !separator(path.last()) && (path.len() == 1 || separator(path[path.len() - 2])) {
        part_count(path.drop_last()) + 1
    } else {
        part_count(path.drop_last())
    }
}

/// Whether a path is a root: separators alone, a drive, or a share of a server.
pub open spec fn root_path(path: Seq<char>) -> bool {
    let bare = without_separators(path);
    path.len() > 0 && separator(path.last()) && (bare.len() == 0 || (bare.len() == 2
        && ascii_letter(bare[0]) && bare[1] == ':') || ((begins_with(path, "//"@) || begins_with(
        path,
        "\\\\"@,
    )) && part_count(bare.skip(2)) == 2))
}

/// A search directory without separators at its end; a root keeps them.
pub open spec fn normalized(path: Seq<char>) -> Seq<char> {
    if root_path(path) {
        path
    } else {
        without_separators(path)
    }
}

proof fn lemma_without_separators(path: Seq<char>)
    ensures
        without_separators(path).len() <= path.len(),
        without_separators(path) == path.take(without_separators(path).len() as int),
        without_separators(path).len() > 0 ==> !separator(without_separators(path).last()),
    decreases path.len(),
{
    if path.len() > 0 && separator(path.last()) {
        lemma_without_separators(path.drop_last());
        let kept = without_separators(path);
        assert(path.drop_last().take(kept.len() as int) =~= path.take(kept.len() as int));
    } else {
        assert(path.take(path.len() as int) =~= path);
    }
}

fn trim_separators(path: &Vec<char>) -> (bare: Vec<char>)
    ensures
        bare@ == without_separators(path@),
{
    let mut end: usize = path.len();
    assert(path@.take(path@.len() as int) =~= path@);
    while end > 0 && is_separator(path[end - 1])
        invariant
            end <= path.len(),
            without_separators(path@.take(end as int)) == without_separators(path@),
        ensures
            end <= path.len(),
            without_separators(path@.take(end as int)) == without_separators(path@),
            end == 0 || !separator(path@[end - 1]),
        decreases end,
    {
        assert(path@.take(end as int).drop_last() =~= path@.take(end - 1));
        end = end - 1;
    }
    let mut bare: Vec<char> = Vec::new();
    let mut i: usize = 0;
    while i < end
        invariant
            i <= end <= path.len(),
            bare@ == path@.take(i as int),
        decreases end - i,
    {
        bare.push(path[i]);
        i = i + 1;
        assert(path@.take(i as int) =~= path@.take(i - 1).push(path@[i - 1]));
    }
    bare
}

#[verifier::loop_isolation(false)]
fn count_parts(path: &Vec<char>, from: usize) -> (count: usize)
    requires
        from <= path@.len(),
    ensures
        count as nat == part_count(path@.skip(from as int)),
{
    let ghost all = path@.skip(from as int);
    let mut count: usize = 0;
    let mut i: usize = from;
    assert(all.take(0) =~= Seq::<char>::empty());
    while i < path.len()
        invariant
            from <= i <= path.len(),
            count <= i - from,
            count as nat == part_count(all.take(i - from)),
        decreases path.len() - i,
    {
        proof {
            assert(all.take(i - from + 1).drop_last() =~= all.take(i - from));
            assert(all.take(i - from + 1).last() == path@[i as int]);
            if i > from {
                assert(all.take(i - from + 1)[i - from - 1] == path@[i - 1]);
            }
        }
        if !is_separator(path[i]) && (i == from || is_separator(path[i - 1])) {
            count = count + 1;
        }
        i = i + 1;
    }
    assert(all.take(all.len() as int) =~= all);
    count
}

/// Whether a path is a root.
pub fn is_root_path(path: &str) -> (answer: bool)
    ensures
        answer == root_path(path@),
{
    let chars = chars_of(path);
    if chars.len() == 0 || !is_separator(chars[chars.len() - 1]) {
        return false;
    }
    let bare = trim_separators(&chars);
    if bare.len() == 0 {
        return true;
    }
    if bare.len() == 2 && is_ascii_letter(bare[0]) && bare[1] == ':' {
        return true;
    }
    if starts_with(path, "//") || starts_with(path, "\\\\") {
        proof {
            lemma_without_separators(path@);
            reveal_strlit("//");
            reveal_strlit("\\\\");
            if bare@.len() < 2 {
                assert(path@.take(2)[0] == path@[0]);
                assert(bare@.last() == path@[0]);
            }
        }
        return count_parts(&bare, 2) == 2;
    }
    false
}

/// A search directory without separators at its end; a root keeps them.
pub fn normalize_search_dir(path: &str) -> (text: String)
    ensures
        text@ == normalized(path@),
{
    if is_root_path(path) {
        return owned(path);
    }
    let chars = chars_of(path);
    text_of(&trim_separators(&chars))
}

/// What decimal digits stand for.
pub open spec fn number_of(digits: Seq<char>) -> nat
    decreases digits.len(),
{
    if digits.len() == 0 {
        0
    } else {
        number_of(digits.drop_last()) * 10 + (digits.last() as nat - '0' as nat) as nat
    }
}

pub open spec fn all_digits(text: Seq<char>) -> bool {
    forall|i: int| 0 <= i < text.len() ==> ascii_digit(#[trigger] text[i])
}

pub open spec fn digits_of(text: Seq<char>) -> Seq<char> {
    if text.len() > 0 && text[0] == '+' {
        text.drop_first()
    } else {
        text
    }
}

/// A number below two to the sixteenth: decimal digits, perhaps with a plus sign before them.
pub open spec fn small_number(text: Seq<char>) -> Option<u16> {
    let digits = digits_of(text);
    if digits.len() > 0 && all_digits(digits) && number_of(digits) <= u16::MAX {
        Some(number_of(digits) as u16)
    } else {
        None
    }
}

/// Reads a number below two to the sixteenth.
#[verifier::loop_isolation(false)]
pub fn parse_small_number(text: &str) -> (number: Option<u16>)
    ensures
        number == small_number(text@),
{
    let chars = chars_of(text);
    let ghost digits = digits_of(text@);
    let start: usize = if chars.len() > 0 && chars[0] == '+' {
        1
    } else {
        0
    };
    if chars.len() == start {
        return None;
    }
    let mut value: u32 = 0;
    let mut fits = true;
    let mut i: usize = start;
    assert(digits.take(0) =~= Seq::<char>::empty());
    while i < chars.len()
        invariant
            start <= i <= chars.len(),
            forall|k: int| 0 <= k < i - start ==> ascii_digit(#[trigger] digits[k]),
            fits ==> value as nat == number_of(digits.take(i - start)) && value <= u16::MAX,
            !fits ==> number_of(digits.take(i - start)) > u16::MAX,
        decreases chars.len() - i,
    {
        assert(digits[i - start] == chars@[i as int]);
        if !is_ascii_digit(chars[i]) {
            return None;
        }
        proof {
            assert(digits.take(i - start + 1).drop_last() =~= digits.take(i - start));
            assert(digits.take(i - start + 1).last() == digits[i - start]);
        }
        if fits {
            value = value * 10 + (chars[i] as u32 - '0' as u32);
            if value > 65535 {
                fits = false;
            }
        }
        i = i + 1;
    }
    assert(digits.take(digits.len() as int) =~= digits);
    if fits {
        Some(value as u16)
    } else {
        None
    }
}

/// The last separator of a text.
pub open spec fn last_separator(text: Seq<char>) -> Option<int>
    decreases text.len(),
{
    if text.len() == 0 {
        None
    } else if separator(text.last()) {
        Some(text.len() - 1)
    } else {
        last_separator(text.drop_last())
    }
}

/// What is typed, as a directory and the start of a name in it.
pub open spec fn split_typed(input: Seq<char>) -> (Seq<char>, Seq<char>) {
    match last_separator(input) {
        Some(at) => (input.take(at + 1), input.skip(at + 1)),
        None => ("./"@, input),
    }
}

fn find_last_separator(chars: &Vec<char>) -> (at: Option<usize>)
    ensures
        match last_separator(chars@) {
            Some(place) => at is Some && at->0 as int == place && place < chars@.len(),
            None => at is None,
        },
{
    let mut end: usize = chars.len();
    assert(chars@.take(chars@.len() as int) =~= chars@);
    while end > 0
        invariant
            end <= chars.len(),
            last_separator(chars@) == last_separator(chars@.take(end as int)),
        decreases end,
    {
        assert(chars@.take(end as int).drop_last() =~= chars@.take(end - 1));
        assert(chars@.take(end as int).last() == chars@[end - 1]);
        if is_separator(chars[end - 1]) {
            return Some(end - 1);
        }
        end = end - 1;
    }
    None
}

fn part_of(chars: &Vec<char>, from: usize, to: usize) -> (text: String)
    requires
        from <= to <= chars@.len(),
    ensures
        text@ == chars@.subrange(from as int, to as int),
{
    let mut part: Vec<char> = Vec::new();
    let mut i: usize = from;
    while i < to
        invariant
            from <= i <= to <= chars.len(),
            part@ == chars@.subrange(from as int, i as int),
        decreases to - i,
    {
        part.push(chars[i]);
        i = i + 1;
        assert(chars@.subrange(from as int, i as int) =~= chars@.subrange(
            from as int,
            i - 1,
        ).push(chars@[i - 1]));
    }
    text_of(&part)
}

/// Splits what is typed into a directory and the start of a name in it.
pub fn split_input(input: &str) -> (split: (String, String))
    ensures
        (split.0@, split.1@) == split_typed(input@),
{
    let chars = chars_of(input);
    let _count: usize = chars.len();
    match find_last_separator(&chars) {
        Some(at) => {
            let parent = part_of(&chars, 0, at + 1);
            let prefix = part_of(&chars, at + 1, chars.len());
            assert(parent@ =~= input@.take(at + 1));
            assert(prefix@ =~= input@.skip(at + 1));
            (parent, prefix)
        },
        None => (owned("./"), owned(input)),
    }
}

/// What stands behind a leading tilde and a separator.
pub open spec fn tilde_rest(path: Seq<char>) -> Option<Seq<char>> {
    if begins_with(path, "~/"@) {
        Some(path.skip("~/"@.len() as int))
    } else if begins_with(path, "~\\"@) {
        Some(path.skip("~\\"@.len() as int))
    } else {
        None
    }
}

/// Where a typed directory lies: a leading tilde stands for the home directory, or for the
/// working directory where there is none.
pub open spec fn listed_dir(path: Seq<char>, home: Option<Seq<u8>>, rules: PathRules) -> Seq<u8> {
    let base = match home {
        Some(home) => home,
        None => encode_utf8("."@),
    };
    if path == "~"@ {
        base
    } else {
        match tilde_rest(path) {
            Some(rest) => joined_path(base, encode_utf8(rest), rules),
            None => encode_utf8(path),
        }
    }
}

fn expand_for_fs(path: &str, home: Option<&PathBuf>, rules: PathRules) -> (dir: PathBuf)
    ensures
        dir@ == listed_dir(path@, home.deep_view(), rules),
{
    let base = match home {
        Some(home) => home.clone(),
        None => PathBuf::new("."),
    };
    if same_text(path, "~") {
        return base;
    }
    match below_tilde(path) {
        Some(rest) => base.join(&PathBuf::new(rest.as_str()), rules),
        None => PathBuf::new(path),
    }
}

/// Whether a name is offered for the start of a name, both given as they are and without
/// letter case; a hidden one only where its dot is typed.
pub open spec fn offered_folded(
    name: Seq<char>,
    prefix: Seq<char>,
    folded_name: Seq<char>,
    folded_prefix: Seq<char>,
) -> bool {
    (!begins_with(name, "."@) || begins_with(prefix, "."@)) && begins_with(
        folded_name,
        folded_prefix,
    )
}

/// Whether a name is offered for the start of a name.
pub fn is_offered(name: &str, prefix: &str, folded_name: &str, folded_prefix: &str) -> (answer: bool)
    ensures
        answer == offered_folded(name@, prefix@, folded_name@, folded_prefix@),
{
    (!starts_with(name, ".") || starts_with(prefix, ".")) && starts_with(folded_name, folded_prefix)
}

/// Whether a name is offered for the start of a name, whatever the letter case.
pub open spec fn offered(name: Seq<char>, prefix: Seq<char>) -> bool {
    offered_folded(name, prefix, lowercase_of(name), lowercase_of(prefix))
}

/// The names that are offered, behind their directory.
pub open spec fn offers(names: Seq<Seq<char>>, parent: Seq<char>, prefix: Seq<char>) -> Seq<
    Seq<char>,
>
    decreases names.len(),
{
    if names.len() == 0 {
        Seq::empty()
    } else {
        let before = offers(names.drop_last(), parent, prefix);
        if offered(names.last(), prefix) {
            before.push(parent + names.last())
        } else {
            before
        }
    }
}

pub open spec fn rank_texts() -> spec_fn(Seq<char>, Seq<char>) -> Rank {
    |a: Seq<char>, b: Seq<char>| rank_text(a, b)
}

/// What is offered for what is typed, where a directory holds some names.
pub open spec fn completions(input: Seq<char>, names: Seq<Seq<char>>) -> Seq<Seq<char>> {
    let (parent, prefix) = split_typed(input);
    stable_sorted(offers(names, parent, prefix), not_after(rank_texts()))
}

/// What is offered is in order, and no offer is lost or made up.
pub proof fn lemma_completions_in_order(input: Seq<char>, names: Seq<Seq<char>>) -> (places: Seq<
    int,
>)
    ensures
        in_order(completions(input, names), not_after(rank_texts())),
        stable_rearrangement(
            offers(names, split_typed(input).0, split_typed(input).1),
            completions(input, names),
            not_after(rank_texts()),
            places,
        ),
{
    lemma_rank_text_consistent();
    assert(consistent(rank_texts()));
    lemma_consistent_total(rank_texts());
    lemma_stable_sort(
        offers(names, split_typed(input).0, split_typed(input).1),
        not_after(rank_texts()),
    )
}

fn sort_texts(texts: Vec<String>) -> (sorted: Vec<String>)
    ensures
        sorted.deep_view() == stable_sorted(texts.deep_view(), not_after(rank_texts())),
{
    let ghost order = |a: String, b: String| not_after(rank_texts())(a@, b@);
    let ghost before = texts@;
    let ghost image = |t: String| t@;
    let le = |a: &String, b: &String| -> (answer: bool)
        ensures
            answer == order(*a, *b),
    {
        let rank = compare_text(a.as_str(), b.as_str());
        rank != Rank::Greater
    };
    let sorted = stable_sort(texts, le, Ghost(order));
    proof {
        lemma_sort_map(before, order, image, not_after(rank_texts()));
        assert(before.map_values(image) =~= texts.deep_view());
        assert(sorted@.map_values(image) =~= sorted.deep_view());
    }
    sorted
}

/// What is offered for what is typed, where its directory holds some names.
#[verifier::loop_isolation(false)]
pub fn complete_names(input: &str, names: &Vec<String>) -> (values: Vec<String>)
    ensures
        values.deep_view() == completions(input@, names.deep_view()),
{
    let (parent, prefix) = split_input(input);
    let ghost all = names.deep_view();
    let lowered = lowercase(prefix.as_str());
    let mut found: Vec<String> = Vec::new();
    let mut i: usize = 0;
    assert(found.deep_view() =~= offers(all.take(0), parent@, prefix@));
    while i < names.len()
        invariant
            i <= names.len(),
            found.deep_view() == offers(all.take(i as int), parent@, prefix@),
        decreases names.len() - i,
    {
        let ghost before = found.deep_view();
        proof {
            assert(all.take(i + 1).drop_last() =~= all.take(i as int));
            assert(all.take(i + 1).last() == names@[i as int]@);
        }
        let name = names[i].as_str();
        let lowered_name = lowercase(name);
        if is_offered(name, prefix.as_str(), lowered_name.as_str(), lowered.as_str()) {
            let value = concat(parent.as_str(), name);
            let ghost added = value@;
            found.push(value);
            assert(found.deep_view() =~= before.push(added));
        }
        i = i + 1;
    }
    assert(all.take(all.len() as int) =~= all);
    sort_texts(found)
}

/// Whether listing a directory may give an answer.
pub open spec fn lists<F: Fn(&PathBuf) -> Result<Vec<String>, String>>(
    read: F,
    dir: Seq<u8>,
    answer: Result<Vec<String>, String>,
) -> bool {
    exists|path: PathBuf| path@ == dir && #[trigger] call_ensures(read, (&path,), answer)
}

/// The names in an answer: none where the directory could not be listed.
pub open spec fn names_in(answer: Result<Vec<String>, String>) -> Option<Seq<Seq<char>>> {
    match answer {
        Ok(names) => Some(names.deep_view()),
        Err(_) => None,
    }
}

pub open spec fn completions_of(input: Seq<char>, names: Option<Seq<Seq<char>>>) -> Seq<Seq<char>> {
    match names {
        Some(names) => completions(input, names),
        None => Seq::empty(),
    }
}

/// Whether values are what is offered for what is typed, by a listing of its directory.
/// Nothing is offered where nothing is typed or the directory cannot be listed.
pub open spec fn offers_of<F: Fn(&PathBuf) -> Result<Vec<String>, String>>(
    input: Seq<char>,
    home: Option<Seq<u8>>,
    read: F,
    values: Seq<Seq<char>>,
    rules: PathRules,
) -> bool {
    if input.len() == 0 {
        values.len() == 0
    } else {
        exists|answer: Result<Vec<String>, String>| #[trigger]
            lists(read, listed_dir(split_typed(input).0, home, rules), answer) && values
                == completions_of(input, names_in(answer))
    }
}

/// What is offered for what is typed; `read_directory_names` lists a directory.
pub fn complete_paths_with(
    input: &str,
    home: Option<&PathBuf>,
    read_directory_names: &impl Fn(&PathBuf) -> Result<Vec<String>, String>,
    rules: PathRules,
) -> (values: Vec<String>)
    requires
        forall|path: &PathBuf| call_requires(*read_directory_names, (path,)),
    ensures
        offers_of(input@, home.deep_view(), *read_directory_names, values.deep_view(), rules),
{
    if input.is_empty() {
        return Vec::new();
    }
    let (parent, _prefix) = split_input(input);
    let dir = expand_for_fs(parent.as_str(), home, rules);
    let answer = read_directory_names(&dir);
    assert(call_ensures(*read_directory_names, (&dir,), answer));
    assert(lists(
        *read_directory_names,
        listed_dir(split_typed(input@).0, home.deep_view(), rules),
        answer,
    ));
    match answer {
        Ok(names) => complete_names(input, &names),
        Err(_) => {
            let none: Vec<String> = Vec::new();
            assert(none.deep_view() =~= Seq::<Seq<char>>::empty());
            none
        },
    }
}

/// How far two texts agree.
pub open spec fn agreement(left: Seq<char>, right: Seq<char>) -> Seq<char>
    decreases left.len(),
{
    if left.len() > 0 && right.len() > 0 && left[0] == right[0] {
        seq![left[0]] + agreement(left.drop_first(), right.drop_first())
    } else {
        Seq::empty()
    }
}

/// The longest text that all texts start with.
pub open spec fn shared_start(values: Seq<Seq<char>>) -> Seq<char>
    decreases values.len(),
{
    if values.len() == 0 {
        Seq::empty()
    } else if values.len() == 1 {
        values[0]
    } else {
        agreement(shared_start(values.drop_last()), values.last())
    }
}

proof fn lemma_agreement_at(left: Seq<char>, right: Seq<char>, count: int)
    requires
        0 <= count <= left.len(),
        count <= right.len(),
        forall|i: int| 0 <= i < count ==> left[i] == right[i],
        count == left.len() || count == right.len() || left[count] != right[count],
    ensures
        agreement(left, right) == left.take(count),
    decreases count,
{
    if count > 0 {
        let l = left.drop_first();
        let r = right.drop_first();
        assert forall|i: int| 0 <= i < count - 1 implies l[i] == r[i] by {
            assert(left[i + 1] == right[i + 1]);
        }
        lemma_agreement_at(l, r, count - 1);
        assert(left[0] == right[0]);
        assert(seq![left[0]] + l.take(count - 1) =~= left.take(count));
    } else {
        assert(left.take(0) =~= Seq::<char>::empty());
    }
}

fn agree(left: &Vec<char>, right: &Vec<char>) -> (start: Vec<char>)
    ensures
        start@ == agreement(left@, right@),
{
    let mut start: Vec<char> = Vec::new();
    let mut i: usize = 0;
    while i < left.len() && i < right.len() && left[i] == right[i]
        invariant
            i <= left.len(),
            i <= right.len(),
            forall|k: int| 0 <= k < i ==> left@[k] == right@[k],
            start@ == left@.take(i as int),
        ensures
            i <= left.len(),
            i <= right.len(),
            forall|k: int| 0 <= k < i ==> left@[k] == right@[k],
            start@ == left@.take(i as int),
            i == left.len() || i == right.len() || left@[i as int] != right@[i as int],
        decreases left.len() - i,
    {
        start.push(left[i]);
        i = i + 1;
        assert(left@.take(i as int) =~= left@.take(i - 1).push(left@[i - 1]));
    }
    proof {
        lemma_agreement_at(left@, right@, i as int);
    }
    start
}

/// The longest text that all texts start with.
#[verifier::loop_isolation(false)]
pub fn common_prefix(values: &Vec<String>) -> (start: String)
    ensures
        start@ == shared_start(values.deep_view()),
{
    let ghost all = values.deep_view();
    if values.len() == 0 {
        let none = String::new();
        assert(none@ =~= Seq::<char>::empty());
        return none;
    }
    let mut start = chars_of(values[0].as_str());
    let mut i: usize = 1;
    assert(all.take(1)[0] == values@[0]@);
    while i < values.len()
        invariant
            1 <= i <= values.len(),
            start@ == shared_start(all.take(i as int)),
        decreases values.len() - i,
    {
        proof {
            assert(all.take(i + 1).drop_last() =~= all.take(i as int));
            assert(all.take(i + 1).last() == values@[i as int]@);
        }
        let next = chars_of(values[i].as_str());
        start = agree(&start, &next);
        i = i + 1;
    }
    assert(all.take(all.len() as int) =~= all);
    text_of(&start)
}

proof fn lemma_agreement_starts(left: Seq<char>, right: Seq<char>)
    ensures
        begins_with(left, agreement(left, right)),
        begins_with(right, agreement(left, right)),
    decreases left.len(),
{
    let common = agreement(left, right);
    if left.len() > 0 && right.len() > 0 && left[0] == right[0] {
        let rest = agreement(left.drop_first(), right.drop_first());
        lemma_agreement_starts(left.drop_first(), right.drop_first());
        assert(left.take(common.len() as int) =~= seq![left[0]] + left.drop_first().take(
            rest.len() as int,
        ));
        assert(right.take(common.len() as int) =~= seq![right[0]] + right.drop_first().take(
            rest.len() as int,
        ));
    } else {
        assert(left.take(0) =~= common);
        assert(right.take(0) =~= common);
    }
}

/// Every text starts with what all of them start with.
pub proof fn lemma_shared_start(values: Seq<Seq<char>>, at: int)
    requires
        0 <= at < values.len(),
    ensures
        begins_with(values[at], shared_start(values)),
    decreases values.len(),
{
    let common = shared_start(values);
    if values.len() == 1 {
        assert(values[0].take(values[0].len() as int) =~= values[0]);
    } else {
        let before = shared_start(values.drop_last());
        lemma_agreement_starts(before, values.last());
        if at < values.len() - 1 {
            lemma_shared_start(values.drop_last(), at);
            assert(values[at].take(common.len() as int) =~= values[at].take(
                before.len() as int,
            ).take(common.len() as int));
        }
    }
}

pub open spec fn typed_text(text: Seq<char>) -> TextInputV {
    TextInputV { text, cursor: byte_len(text) }
}

impl SetupV {
    pub open spec fn continued(self) -> SetupV {
        if self.step is Welcome {
            SetupV { step: SetupStepV::Directories, ..self }
        } else {
            self
        }
    }

    /// Submitting what is typed: a directory asks for its depth; nothing ends the list,
    /// unless the list is empty.
    pub open spec fn depth_begun(self) -> Result<SetupV, Seq<char>> {
        let path = normalized(trimmed(self.input.text));
        if path.len() > 0 {
            Ok(
                SetupV {
                    step: SetupStepV::Depth { path },
                    folder_mode: FolderMode::GitRepositoriesOnly,
                    input: TextInputV { text: "1"@, cursor: 1 },
                    depth_default_pristine: true,
                    completions: Seq::empty(),
                    selected_completion: None,
                    ..self
                },
            )
        } else if self.dirs.len() == 0 {
            Err("Add at least one search directory"@)
        } else {
            Ok(SetupV { step: SetupStepV::Confirm, ..self })
        }
    }

    /// Submitting a depth.
    pub open spec fn depth_committed(self) -> Result<SetupV, Seq<char>> {
        match self.step {
            SetupStepV::Depth { path } => match small_number(self.input.text) {
                Some(depth) => if depth == 0 {
                    Err("Depth must be at least 1"@)
                } else {
                    Ok(
                        SetupV {
                            step: SetupStepV::FolderMode { path, depth },
                            message: None,
                            depth_default_pristine: false,
                            ..self
                        },
                    )
                },
                None => Err("Depth must be a whole number"@),
            },
            _ => Err("not choosing a search depth"@),
        }
    }

    /// Submitting which folders are listed: the directory is added, or replaced where it was
    /// added before.
    pub open spec fn folder_mode_committed(self) -> Result<SetupV, Seq<char>> {
        match self.step {
            SetupStepV::FolderMode { path, depth } => {
                let entry = SetupDirV { path, depth, include_non_git: self.folder_mode.setting() };
                Ok(
                    SetupV {
                        dirs: match dir_place(self.dirs, path) {
                            Some(place) => self.dirs.update(place, entry),
                            None => self.dirs.push(entry),
                        },
                        step: SetupStepV::Directories,
                        input: TextInputV { text: Seq::empty(), cursor: 0 },
                        message: None,
                        ..self
                    },
                )
            },
            _ => Err("not choosing a folder inclusion mode"@),
        }
    }

    pub open spec fn folder_mode_cancelled(self) -> SetupV {
        match self.step {
            SetupStepV::FolderMode { path, depth } => SetupV {
                step: SetupStepV::Depth { path },
                input: typed_text(decimal(depth as nat)),
                message: None,
                depth_default_pristine: false,
                ..self
            },
            _ => self,
        }
    }

    pub open spec fn depth_cancelled(self) -> SetupV {
        match self.step {
            SetupStepV::Depth { path } => SetupV {
                step: SetupStepV::Directories,
                input: typed_text(path),
                message: None,
                depth_default_pristine: false,
                ..self
            },
            _ => self,
        }
    }

    pub open spec fn offering(self, values: Seq<Seq<char>>) -> SetupV {
        SetupV { completions: values, selected_completion: None, ..self }
    }

    /// Choosing the next offer.
    pub open spec fn next_offer(self) -> SetupV {
        let selected = match self.selected_completion {
            Some(index) => (index + 1) % (self.completions.len() as int),
            None => 0,
        };
        SetupV {
            selected_completion: Some(selected as usize),
            input: typed_text(self.completions[selected]),
            ..self
        }
    }
}

/// The first directory with a path.
pub open spec fn dir_place(dirs: Seq<SetupDirV>, path: Seq<char>) -> Option<int>
    decreases dirs.len(),
{
    if dirs.len() == 0 {
        None
    } else {
        match dir_place(dirs.drop_last(), path) {
            Some(place) => Some(place),
            None => if dirs.last().path == path {
                Some(dirs.len() - 1)
            } else {
                None
            },
        }
    }
}

proof fn lemma_dir_place_prefix(dirs: Seq<SetupDirV>, path: Seq<char>, count: int)
    requires
        0 <= count <= dirs.len(),
        dir_place(dirs.take(count), path) is Some,
    ensures
        dir_place(dirs, path) == dir_place(dirs.take(count), path),
    decreases dirs.len(),
{
    if count == dirs.len() {
        assert(dirs.take(count) =~= dirs);
    } else {
        assert(dirs.drop_last().take(count) =~= dirs.take(count));
        lemma_dir_place_prefix(dirs.drop_last(), path, count);
    }
}

fn find_dir(dirs: &Vec<SetupDir>, path: &str) -> (place: Option<usize>)
    ensures
        match dir_place(dirs.deep_view(), path@) {
            Some(at) => place is Some && place->0 as int == at && at < dirs@.len(),
            None => place is None,
        },
{
    let ghost all = dirs.deep_view();
    let mut i: usize = 0;
    while i < dirs.len()
        invariant
            i <= dirs.len(),
            all == dirs.deep_view(),
            dir_place(all.take(i as int), path@) is None,
        decreases dirs.len() - i,
    {
        proof {
            assert(all.take(i + 1).drop_last() =~= all.take(i as int));
            assert(all.take(i + 1).last() == dirs@[i as int].deep_view());
        }
        if same_text(dirs[i].path.as_str(), path) {
            proof {
                lemma_dir_place_prefix(all, path@, i + 1);
            }
            return Some(i);
        }
        i = i + 1;
    }
    assert(all.take(all.len() as int) =~= all);
    None
}

/// Whether a submission led from one state to another one, or failed and changed nothing.
pub open spec fn submitted(before: SetupV, after: SetupV, wanted: Result<SetupV, Seq<char>>) -> bool {
    match wanted {
        Ok(next) => after == next,
        Err(_) => after == before,
    }
}

impl SetupState {
    pub fn continue_from_welcome(&mut self)
        ensures
            final(self).deep_view() == old(self).deep_view().continued(),
    {
        let welcomed = match &self.step {
            SetupStep::Welcome => true,
            _ => false,
        };
        if welcomed {
            self.step = SetupStep::Directories;
        }
    }

    /// Submits what is typed.
    pub fn begin_depth(&mut self) -> (result: Result<(), &'static str>)
        ensures
            submitted(
                old(self).deep_view(),
                final(self).deep_view(),
                old(self).deep_view().depth_begun(),
            ),
            match old(self).deep_view().depth_begun() {
                Ok(_) => result is Ok,
                Err(message) => result is Err && result->Err_0@ == message,
            },
    {
        let ghost start = self.deep_view();
        let path = normalize_search_dir(trim(self.input.text.as_str()).as_str());
        if path.as_str().is_empty() {
            assert(self.dirs.deep_view().len() == self.dirs@.len());
            if self.dirs.len() == 0 {
                return Err("Add at least one search directory");
            }
            self.step = SetupStep::Confirm;
            return Ok(());
        }
        self.step = SetupStep::Depth { path };
        self.folder_mode = FolderMode::GitRepositoriesOnly;
        self.input.text = owned("1");
        self.input.cursor = 1;
        self.depth_default_pristine = true;
        self.completions = Vec::new();
        assert(self.completions.deep_view() =~= Seq::<Seq<char>>::empty());
        self.selected_completion = None;
        Ok(())
    }

    /// Submits a depth.
    pub fn commit_depth(&mut self) -> (result: Result<(), String>)
        ensures
            submitted(
                old(self).deep_view(),
                final(self).deep_view(),
                old(self).deep_view().depth_committed(),
            ),
            match old(self).deep_view().depth_committed() {
                Ok(_) => result is Ok,
                Err(message) => result is Err && result->Err_0@ == message,
            },
    {
        let path = match &self.step {
            SetupStep::Depth { path } => path.clone(),
            _ => return Err(owned("not choosing a search depth")),
        };
        let depth: u16 = match parse_small_number(self.input.text.as_str()) {
            Some(depth) => depth,
            None => return Err(owned("Depth must be a whole number")),
        };
        if depth == 0 {
            return Err(owned("Depth must be at least 1"));
        }
        self.step = SetupStep::FolderMode { path, depth };
        self.message = None;
        self.depth_default_pristine = false;
        Ok(())
    }

    pub fn select_previous_folder_mode(&mut self)
        ensures
            final(self).deep_view() == (SetupV {
                folder_mode: old(self).folder_mode.other_spec(),
                ..old(self).deep_view()
            }),
    {
        self.folder_mode = self.folder_mode.previous();
    }

    pub fn select_next_folder_mode(&mut self)
        ensures
            final(self).deep_view() == (SetupV {
                folder_mode: old(self).folder_mode.other_spec(),
                ..old(self).deep_view()
            }),
    {
        self.folder_mode = self.folder_mode.next();
    }

    /// Submits which folders are listed.
    pub fn commit_folder_mode(&mut self) -> (result: Result<(), &'static str>)
        ensures
            submitted(
                old(self).deep_view(),
                final(self).deep_view(),
                old(self).deep_view().folder_mode_committed(),
            ),
            match old(self).deep_view().folder_mode_committed() {
                Ok(_) => result is Ok,
                Err(message) => result is Err && result->Err_0@ == message,
            },
    {
        let ghost start = self.deep_view();
        let (path, depth): (String, u16) = match &self.step {
            SetupStep::FolderMode { path, depth } => (path.clone(), *depth),
            _ => return Err("not choosing a folder inclusion mode"),
        };
        let place = find_dir(&self.dirs, path.as_str());
        let entry = SetupDir {
            path,
            depth,
            include_non_git: self.folder_mode.include_non_git(),
        };
        let ghost added = entry.deep_view();
        match place {
            Some(at) => {
                self.dirs.set(at, entry);
                assert(self.dirs.deep_view() =~= start.dirs.update(at as int, added));
            },
            None => {
                self.dirs.push(entry);
                assert(self.dirs.deep_view() =~= start.dirs.push(added));
            },
        }
        self.step = SetupStep::Directories;
        self.input.clear();
        self.message = None;
        Ok(())
    }

    /// Goes back to the depth.
    pub fn cancel_folder_mode(&mut self)
        ensures
            final(self).deep_view() == old(self).deep_view().folder_mode_cancelled(),
    {
        let (path, depth): (String, u16) = match &self.step {
            SetupStep::FolderMode { path, depth } => (path.clone(), *depth),
            _ => return,
        };
        self.step = SetupStep::Depth { path };
        self.input.text = decimal_text(depth as u64);
        self.input.cursor = length(self.input.text.as_str());
        self.message = None;
        self.depth_default_pristine = false;
    }

    /// Goes back to the directory.
    pub fn cancel_depth(&mut self)
        ensures
            final(self).deep_view() == old(self).deep_view().depth_cancelled(),
    {
        let path = match &self.step {
            SetupStep::Depth { path } => path.clone(),
            _ => return,
        };
        self.step = SetupStep::Directories;
        self.input.text = path;
        self.input.cursor = length(self.input.text.as_str());
        self.message = None;
        self.depth_default_pristine = false;
    }

    /// Removes the directory that was added last.
    pub fn remove_last(&mut self) -> (removed: Option<SetupDir>)
        ensures
            ({
                let dirs = old(self).deep_view().dirs;
                if dirs.len() == 0 {
                    removed is None && final(self).deep_view() == old(self).deep_view()
                } else {
                    &&& removed is Some
                    &&& removed->0.deep_view() == dirs.last()
                    &&& final(self).deep_view() == (SetupV {
                        dirs: dirs.drop_last(),
                        ..old(self).deep_view()
                    })
                }
            }),
    {
        let ghost start = self.deep_view();
        let removed = self.dirs.pop();
        if removed.is_some() {
            assert(self.dirs.deep_view() =~= start.dirs.drop_last());
        }
        removed
    }

    /// Offers what the directory that is typed holds; `read_directory_names` lists it.
    pub fn update_completions(
        &mut self,
        home: Option<&PathBuf>,
        read_directory_names: &impl Fn(&PathBuf) -> Result<Vec<String>, String>,
        rules: PathRules,
    )
        requires
            forall|path: &PathBuf| call_requires(*read_directory_names, (path,)),
        ensures
            offers_of(
                old(self).input.text@,
                home.deep_view(),
                *read_directory_names,
                final(self).deep_view().completions,
                rules,
            ),
            final(self).deep_view() == old(self).deep_view().offering(
                final(self).deep_view().completions,
            ),
    {
        self.completions = complete_paths_with(
            self.input.text.as_str(),
            home,
            read_directory_names,
            rules,
        );
        self.selected_completion = None;
    }

    /// Completes what is typed: as far as all offers agree, then by one offer after the other.
    pub fn tab_complete(
        &mut self,
        home: Option<&PathBuf>,
        read_directory_names: &impl Fn(&PathBuf) -> Result<Vec<String>, String>,
        rules: PathRules,
    )
        requires
            forall|path: &PathBuf| call_requires(*read_directory_names, (path,)),
            old(self).selected_completion matches Some(index) ==> index < usize::MAX,
        ensures
            exists|values: Seq<Seq<char>>| #[trigger]
                tabbed(
                    old(self).deep_view(),
                    final(self).deep_view(),
                    home.deep_view(),
                    *read_directory_names,
                    values,
                    rules,
                ),
    {
        let ghost start = self.deep_view();
        assert(self.completions.deep_view().len() == self.completions@.len());
        if self.completions.len() == 0 {
            self.update_completions(home, read_directory_names, rules);
        }
        let ghost offered = self.deep_view();
        let ghost values = offered.completions;
        assert(self.completions.deep_view().len() == self.completions@.len());
        if self.completions.len() == 0 {
            assert(tabbed(
                start,
                self.deep_view(),
                home.deep_view(),
                *read_directory_names,
                values,
                rules,
            ));
            return;
        }
        let common = common_prefix(&self.completions);
        if length(common.as_str()) > length(self.input.text.as_str()) {
            self.input.cursor = length(common.as_str());
            self.input.text = common;
            self.update_completions(home, read_directory_names, rules);
            assert(tabbed(
                start,
                self.deep_view(),
                home.deep_view(),
                *read_directory_names,
                values,
                rules,
            ));
            return;
        }
        let selected: usize = match self.selected_completion {
            Some(index) => (index + 1) % self.completions.len(),
            None => 0,
        };
        self.selected_completion = Some(selected);
        self.input.text = self.completions[selected].clone();
        self.input.cursor = length(self.input.text.as_str());
        assert(self.deep_view() =~= offered.next_offer());
        assert(tabbed(start, self.deep_view(), home.deep_view(), *read_directory_names, values, rules));
    }

    /// The directories as they are configured.
    #[verifier::loop_isolation(false)]
    pub fn search_dirs(&self) -> (entries: Vec<SearchDirEntry>)
        ensures
            entries@.len() == self.dirs@.len(),
            forall|i: int|
                0 <= i < entries@.len() ==> match #[trigger] entries@[i] {
                    SearchDirEntry::Rich { path, depth, include_non_git } => path@
                        == self.dirs@[i].path@ && depth == Some(self.dirs@[i].depth)
                        && include_non_git == self.dirs@[i].include_non_git,
                    SearchDirEntry::Simple(_) => false,
                },
    {
        let mut entries: Vec<SearchDirEntry> = Vec::new();
        let mut i: usize = 0;
        while i < self.dirs.len()
            invariant
                i <= self.dirs.len(),
                entries@.len() == i,
                forall|k: int|
                    0 <= k < i ==> match #[trigger] entries@[k] {
                        SearchDirEntry::Rich { path, depth, include_non_git } => path@
                            == self.dirs@[k].path@ && depth == Some(self.dirs@[k].depth)
                            && include_non_git == self.dirs@[k].include_non_git,
                        SearchDirEntry::Simple(_) => false,
                    },
            decreases self.dirs.len() - i,
        {
            entries.push(
                SearchDirEntry::Rich {
                    path: self.dirs[i].path.clone(),
                    depth: Some(self.dirs[i].depth),
                    include_non_git: self.dirs[i].include_non_git,
                },
            );
            i = i + 1;
        }
        entries
    }
}

/// Whether completing led from one state to another one, where `values` were offered.
pub open spec fn tabbed<F: Fn(&PathBuf) -> Result<Vec<String>, String>>(
    before: SetupV,
    after: SetupV,
    home: Option<Seq<u8>>,
    read: F,
    values: Seq<Seq<char>>,
    rules: PathRules,
) -> bool {
    let offered = if before.completions.len() == 0 {
        before.offering(values)
    } else {
        before
    };
    let common = shared_start(values);
    &&& if before.completions.len() == 0 {
        offers_of(before.input.text, home, read, values, rules)
    } else {
        values == before.completions
    }
    &&& if values.len() == 0 {
        after == offered
    } else if byte_len(common) > byte_len(before.input.text) {
        offers_of(common, home, read, after.completions, rules) && after == (SetupV {
            input: typed_text(common),
            ..offered
        }).offering(after.completions)
    } else {
        after == offered.next_offer()
    }
}

/// What a key does while directories are typed.
#[derive(Debug, Clone, Copy, PartialEq, Eq, Structural)]
pub enum DirectoryKey {
    Submit,
    Complete,
    Quit,
    RemoveLast,
    Change(Edit),
    CursorLeft,
    CursorRight,
    Ignore,
}

pub open spec fn directory_key_of(key: KeyEvent, nothing_typed: bool) -> DirectoryKey {
    let control = key.modifiers.control;
    let alt = key.modifiers.alt;
    match key.code {
        KeyCode::Enter => DirectoryKey::Submit,
        KeyCode::Tab => DirectoryKey::Complete,
        KeyCode::Esc => if nothing_typed {
            DirectoryKey::Quit
        } else {
            DirectoryKey::Change(Edit::Clear)
        },
        KeyCode::Backspace => if alt {
            DirectoryKey::Change(Edit::DeleteWord)
        } else {
            DirectoryKey::Change(Edit::Backspace)
        },
        KeyCode::Left => if control || alt {
            DirectoryKey::Ignore
        } else {
            DirectoryKey::CursorLeft
        },
        KeyCode::Right => if control || alt {
            DirectoryKey::Ignore
        } else {
            DirectoryKey::CursorRight
        },
        KeyCode::Char(character) => if control && character == 'x' {
            DirectoryKey::RemoveLast
        } else if control && character == 'w' {
            DirectoryKey::Change(Edit::DeleteWord)
        } else if control || alt || control_char(character) {
            DirectoryKey::Ignore
        } else {
            DirectoryKey::Change(Edit::Insert(character))
        },
        _ => DirectoryKey::Ignore,
    }
}

/// What a key does while directories are typed.
pub fn directory_key(key: KeyEvent, nothing_typed: bool) -> (action: DirectoryKey)
    ensures
        action == directory_key_of(key, nothing_typed),
{
    let control = key.modifiers.control;
    let alt = key.modifiers.alt;
    match key.code {
        KeyCode::Enter => DirectoryKey::Submit,
        KeyCode::Tab => DirectoryKey::Complete,
        KeyCode::Esc => if nothing_typed {
            DirectoryKey::Quit
        } else {
            DirectoryKey::Change(Edit::Clear)
        },
        KeyCode::Backspace => if alt {
            DirectoryKey::Change(Edit::DeleteWord)
        } else {
            DirectoryKey::Change(Edit::Backspace)
        },
        KeyCode::Left => if control || alt {
            DirectoryKey::Ignore
        } else {
            DirectoryKey::CursorLeft
        },
        KeyCode::Right => if control || alt {
            DirectoryKey::Ignore
        } else {
            DirectoryKey::CursorRight
        },
        KeyCode::Char(character) => if control && character == 'x' {
            DirectoryKey::RemoveLast
        } else if control && character == 'w' {
            DirectoryKey::Change(Edit::DeleteWord)
        } else if control || alt || is_control(character) {
            DirectoryKey::Ignore
        } else {
            DirectoryKey::Change(Edit::Insert(character))
        },
        _ => DirectoryKey::Ignore,
    }
}

impl SetupV {
    /// A submission that fails leaves its message.
    pub open spec fn submitting(self, wanted: Result<SetupV, Seq<char>>) -> SetupV {
        match wanted {
            Ok(next) => next,
            Err(message) => SetupV { message: Some(message), ..self },
        }
    }

    pub open spec fn changed(self, change: Edit) -> SetupV {
        SetupV {
            input: self.input.edited(change),
            message: if change is Insert {
                None
            } else {
                self.message
            },
            ..self
        }
    }

    pub open spec fn last_removed(self) -> SetupV {
        if self.dirs.len() == 0 {
            SetupV { message: Some("No directory to remove"@), ..self }
        } else {
            SetupV { dirs: self.dirs.drop_last(), ..self }
        }
    }
}

/// Whether a key led from one state to another one while directories are typed.
pub open spec fn directory_key_done<F: Fn(&PathBuf) -> Result<Vec<String>, String>>(
    action: DirectoryKey,
    before: SetupV,
    after: SetupV,
    home: Option<Seq<u8>>,
    read: F,
    rules: PathRules,
) -> bool {
    match action {
        DirectoryKey::Submit => after == before.submitting(before.depth_begun()),
        DirectoryKey::Complete => exists|values: Seq<Seq<char>>| #[trigger]
            tabbed(before, after, home, read, values, rules),
        DirectoryKey::Change(change) => offers_of(
            before.changed(change).input.text,
            home,
            read,
            after.completions,
            rules,
        ) && after == before.changed(change).offering(after.completions),
        DirectoryKey::RemoveLast => after == before.last_removed(),
        DirectoryKey::CursorLeft => after == (SetupV {
            input: before.input.moved_left(),
            ..before
        }),
        DirectoryKey::CursorRight => after == (SetupV {
            input: before.input.moved_right(),
            ..before
        }),
        DirectoryKey::Quit => after == before,
        DirectoryKey::Ignore => after == before,
    }
}

/// Takes a key in while directories are typed. `true` where the setup is left.
pub fn handle_directory_key(
    state: &mut SetupState,
    key: KeyEvent,
    home: Option<&PathBuf>,
    read_directory_names: &impl Fn(&PathBuf) -> Result<Vec<String>, String>,
    rules: PathRules,
) -> (quit: bool)
    requires
        forall|path: &PathBuf| call_requires(*read_directory_names, (path,)),
        old(state).selected_completion matches Some(index) ==> index < usize::MAX,
    ensures
        ({
            let before = old(state).deep_view();
            let action = directory_key_of(key, before.input.text.len() == 0);
            &&& quit == (action == DirectoryKey::Quit)
            &&& directory_key_done(
                action,
                before,
                final(state).deep_view(),
                home.deep_view(),
                *read_directory_names,
                rules,
            )
        }),
{
    match directory_key(key, state.input.text.as_str().is_empty()) {
        DirectoryKey::Submit => {
            match state.begin_depth() {
                Ok(_) => {},
                Err(message) => {
                    state.message = Some(owned(message));
                },
            }
            false
        },
        DirectoryKey::Complete => {
            state.tab_complete(home, read_directory_names, rules);
            false
        },
        DirectoryKey::Quit => true,
        DirectoryKey::RemoveLast => {
            if state.remove_last().is_none() {
                state.message = Some(owned("No directory to remove"));
            }
            false
        },
        DirectoryKey::Change(change) => {
            state.input.edit(change);
            match change {
                Edit::Insert(_) => {
                    state.message = None;
                },
                _ => {},
            }
            state.update_completions(home, read_directory_names, rules);
            false
        },
        DirectoryKey::CursorLeft => {
            state.input.cursor_left();
            false
        },
        DirectoryKey::CursorRight => {
            state.input.cursor_right();
            false
        },
        DirectoryKey::Ignore => false,
    }
}

/// Whether a key led from one state to another one while a depth is typed. The first digit
/// replaces the depth that was offered.
pub open spec fn depth_key_done<F: Fn(&PathBuf) -> Result<Vec<String>, String>>(
    key: KeyEvent,
    before: SetupV,
    after: SetupV,
    home: Option<Seq<u8>>,
    read: F,
    rules: PathRules,
) -> bool {
    match key.code {
        KeyCode::Enter => after == before.submitting(before.depth_committed()),
        KeyCode::Esc => offers_of(
            before.depth_cancelled().input.text,
            home,
            read,
            after.completions,
            rules,
        ) && after == before.depth_cancelled().offering(after.completions),
        KeyCode::Backspace => after == (SetupV {
            depth_default_pristine: false,
            input: before.input.edited(Edit::Backspace),
            ..before
        }),
        KeyCode::Char(character) => if ascii_digit(character) && !key.modifiers.control
            && !key.modifiers.alt {
            after == (SetupV {
                depth_default_pristine: false,
                input: if before.depth_default_pristine {
                    before.input.edited(Edit::Clear).edited(Edit::Insert(character))
                } else {
                    before.input.edited(Edit::Insert(character))
                },
                ..before
            })
        } else {
            after == before
        },
        _ => after == before,
    }
}

/// Takes a key in while a depth is typed.
pub fn handle_depth_key(
    state: &mut SetupState,
    key: KeyEvent,
    home: Option<&PathBuf>,
    read_directory_names: &impl Fn(&PathBuf) -> Result<Vec<String>, String>,
    rules: PathRules,
)
    requires
        forall|path: &PathBuf| call_requires(*read_directory_names, (path,)),
    ensures
        depth_key_done(
            key,
            old(state).deep_view(),
            final(state).deep_view(),
            home.deep_view(),
            *read_directory_names,
            rules,
        ),
{
    match key.code {
        KeyCode::Enter => {
            match state.commit_depth() {
                Ok(_) => {},
                Err(message) => {
                    state.message = Some(message);
                },
            }
        },
        KeyCode::Esc => {
            state.cancel_depth();
            state.update_completions(home, read_directory_names, rules);
        },
        KeyCode::Backspace => {
            state.depth_default_pristine = false;
            state.input.edit(Edit::Backspace);
        },
        KeyCode::Char(character) => {
            if is_ascii_digit(character) && !key.modifiers.control && !key.modifiers.alt {
                if state.depth_default_pristine {
                    state.input.edit(Edit::Clear);
                }
                state.depth_default_pristine = false;
                state.input.edit(Edit::Insert(character));
            }
        },
        _ => {},
    }
}

/// What a key does while the folders to list are chosen.
pub open spec fn after_folder_mode_key(key: KeyEvent, state: SetupV) -> SetupV {
    match key.code {
        KeyCode::Enter => state.submitting(state.folder_mode_committed()),
        KeyCode::Esc => state.folder_mode_cancelled(),
        KeyCode::Up => SetupV { folder_mode: state.folder_mode.other_spec(), ..state },
        KeyCode::Down => SetupV { folder_mode: state.folder_mode.other_spec(), ..state },
        _ => state,
    }
}

/// Takes a key in while the folders to list are chosen.
pub fn handle_folder_mode_key(state: &mut SetupState, key: KeyEvent)
    ensures
        final(state).deep_view() == after_folder_mode_key(key, old(state).deep_view()),
{
    match key.code {
        KeyCode::Enter => {
            match state.commit_folder_mode() {
                Ok(_) => {},
                Err(message) => {
                    state.message = Some(owned(message));
                },
            }
        },
        KeyCode::Esc => state.cancel_folder_mode(),
        KeyCode::Up => state.select_previous_folder_mode(),
        KeyCode::Down => state.select_next_folder_mode(),
        _ => {},
    }
}

/// What the setup asks for after a key.
#[derive(Debug, Clone, Copy, PartialEq, Eq, Structural)]
pub enum SetupOutcome {
    Continue,
    Quit,
    /// The configuration is to be written.
    Write,
}

/// Whether a key led from one state of the setup to another one.
pub open spec fn setup_key_done<F: Fn(&PathBuf) -> Result<Vec<String>, String>>(
    key: KeyEvent,
    before: SetupV,
    after: SetupV,
    outcome: SetupOutcome,
    home: Option<Seq<u8>>,
    read: F,
    rules: PathRules,
) -> bool {
    if key.code == KeyCode::Char('c') && key.modifiers.control {
        outcome == SetupOutcome::Quit && after == before
    } else {
        match before.step {
            SetupStepV::Welcome => if key.code == KeyCode::Enter {
                outcome == SetupOutcome::Continue && after == before.continued()
            } else {
                after == before && outcome == if key.code == KeyCode::Esc {
                    SetupOutcome::Quit
                } else {
                    SetupOutcome::Continue
                }
            },
            SetupStepV::Directories => {
                let action = directory_key_of(key, before.input.text.len() == 0);
                &&& outcome == if action == DirectoryKey::Quit {
                    SetupOutcome::Quit
                } else {
                    SetupOutcome::Continue
                }
                &&& directory_key_done(action, before, after, home, read, rules)
            },
            SetupStepV::Depth { .. } => outcome == SetupOutcome::Continue && depth_key_done(
                key,
                before,
                after,
                home,
                read,
                rules,
            ),
            SetupStepV::FolderMode { .. } => outcome == SetupOutcome::Continue && after
                == after_folder_mode_key(key, before),
            SetupStepV::Confirm => if key.code == KeyCode::Esc {
                outcome == SetupOutcome::Continue && after == (SetupV {
                    step: SetupStepV::Directories,
                    input: TextInputV { text: Seq::empty(), cursor: 0 },
                    ..before
                })
            } else {
                after == before && outcome == if key.code == KeyCode::Enter {
                    SetupOutcome::Write
                } else {
                    SetupOutcome::Continue
                }
            },
        }
    }
}

/// Takes a key in.
pub fn handle_key(
    state: &mut SetupState,
    key: KeyEvent,
    home: Option<&PathBuf>,
    read_directory_names: &impl Fn(&PathBuf) -> Result<Vec<String>, String>,
    rules: PathRules,
) -> (outcome: SetupOutcome)
    requires
        forall|path: &PathBuf| call_requires(*read_directory_names, (path,)),
        old(state).selected_completion matches Some(index) ==> index < usize::MAX,
    ensures
        setup_key_done(
            key,
            old(state).deep_view(),
            final(state).deep_view(),
            outcome,
            home.deep_view(),
            *read_directory_names,
            rules,
        ),
{
    if key.code == KeyCode::Char('c') && key.modifiers.control {
        return SetupOutcome::Quit;
    }
    match &state.step {
        SetupStep::Welcome => {
            if key.code == KeyCode::Enter {
                state.continue_from_welcome();
                SetupOutcome::Continue
            } else if key.code == KeyCode::Esc {
                SetupOutcome::Quit
            } else {
                SetupOutcome::Continue
            }
        },
        SetupStep::Directories => {
            if handle_directory_key(state, key, home, read_directory_names, rules) {
                SetupOutcome::Quit
            } else {
                SetupOutcome::Continue
            }
        },
        SetupStep::Depth { .. } => {
            handle_depth_key(state, key, home, read_directory_names, rules);
            SetupOutcome::Continue
        },
        SetupStep::FolderMode { .. } => {
            handle_folder_mode_key(state, key);
            SetupOutcome::Continue
        },
        SetupStep::Confirm => {
            if key.code == KeyCode::Enter {
                SetupOutcome::Write
            } else {
                if key.code == KeyCode::Esc {
                    state.step = SetupStep::Directories;
                    state.input.clear();
                }
                SetupOutcome::Continue
            }
        },
    }
}

/// Going back from the depth gives back the directory as it was submitted.
pub proof fn lemma_cancelling_depth_restores_path(state: SetupV)
    requires
        state.depth_begun() is Ok,
        normalized(trimmed(state.input.text)).len() > 0,
    ensures
        state.depth_begun()->Ok_0.depth_cancelled().input == typed_text(
            normalized(trimmed(state.input.text)),
        ),
        state.depth_begun()->Ok_0.depth_cancelled().step == SetupStepV::Directories,
        state.depth_begun()->Ok_0.depth_cancelled().dirs == state.dirs,
{
}

/// Whether no directory was added twice.
pub open spec fn dirs_distinct(dirs: Seq<SetupDirV>) -> bool {
    forall|i: int, j: int|
        0 <= i < j < dirs.len() ==> (#[trigger] dirs[i]).path != (#[trigger] dirs[j]).path
}

proof fn lemma_dir_place(dirs: Seq<SetupDirV>, path: Seq<char>)
    ensures
        match dir_place(dirs, path) {
            Some(place) => 0 <= place < dirs.len() && dirs[place].path == path,
            None => forall|i: int| 0 <= i < dirs.len() ==> (#[trigger] dirs[i]).path != path,
        },
    decreases dirs.len(),
{
    if dirs.len() > 0 {
        let before = dirs.drop_last();
        lemma_dir_place(before, path);
        match dir_place(dirs, path) {
            Some(place) => {},
            None => {
                assert forall|i: int| 0 <= i < dirs.len() implies (#[trigger] dirs[i]).path
                    != path by {
                    if i < before.len() {
                        assert(dirs[i] == before[i]);
                    }
                }
            },
        }
    }
}

/// A directory that is added again replaces the earlier entry.
pub proof fn lemma_directories_stay_distinct(state: SetupV)
    requires
        dirs_distinct(state.dirs),
        state.folder_mode_committed() is Ok,
    ensures
        dirs_distinct(state.folder_mode_committed()->Ok_0.dirs),
{
    lemma_dir_place(state.dirs, state.step->FolderMode_path);
}

proof fn lemma_agreement_is_longest(left: Seq<char>, right: Seq<char>, start: Seq<char>)
    requires
        begins_with(left, start),
        begins_with(right, start),
    ensures
        begins_with(agreement(left, right), start),
    decreases start.len(),
{
    let common = agreement(left, right);
    if start.len() == 0 {
        assert(common.take(0) =~= start);
    } else {
        assert(left.take(start.len() as int)[0] == start[0]);
        assert(right.take(start.len() as int)[0] == start[0]);
        let (l, r, s) = (left.drop_first(), right.drop_first(), start.drop_first());
        assert(l.take(s.len() as int) =~= left.take(start.len() as int).drop_first());
        assert(r.take(s.len() as int) =~= right.take(start.len() as int).drop_first());
        lemma_agreement_is_longest(l, r, s);
        assert(common == seq![left[0]] + agreement(l, r));
        assert(common.take(start.len() as int) =~= seq![start[0]] + agreement(l, r).take(
            s.len() as int,
        ));
        assert(seq![start[0]] + s =~= start);
    }
}

/// No longer text starts all of them: whatever starts every text starts what they share.
pub proof fn lemma_shared_start_is_longest(values: Seq<Seq<char>>, start: Seq<char>)
    requires
        values.len() > 0,
        forall|i: int| 0 <= i < values.len() ==> begins_with(#[trigger] values[i], start),
    ensures
        begins_with(shared_start(values), start),
    decreases values.len(),
{
    assert(begins_with(values[values.len() - 1], start));
    if values.len() > 1 {
        let before = values.drop_last();
        assert forall|i: int| 0 <= i < before.len() implies begins_with(
            #[trigger] before[i],
            start,
        ) by {
            assert(before[i] == values[i]);
        }
        lemma_shared_start_is_longest(before, start);
        lemma_agreement_is_longest(shared_start(before), values.last(), start);
    }
}

} // verus!
