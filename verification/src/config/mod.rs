//! The configuration: where to search, key bindings, colors and panes.

use crate::path::{absolute, joined_path, PathBuf, PathRules};
use crate::text::{begins_with, concat, concat3, decimal, decimal_text, decode_lossy, is_blank, lossy_text, owned, same_text, strip_prefix, trimmed};
use vstd::prelude::*;
use vstd::string::*;
use vstd::utf8::encode_utf8;

pub mod keys;
pub mod spelling;

pub use crate::config::keys::KeysConfig;

verus! {

pub const APP_NAME: &'static str = "herdr-kiosk";

pub const DEFAULT_SEARCH_DEPTH: u16 = 1;

/// A directory to search, with or without settings of its own.
#[derive(Debug, PartialEq, Eq)]
pub enum SearchDirEntry {
    Simple(String),
    Rich { path: String, depth: Option<u16>, include_non_git: Option<bool> },
}

pub struct SearchDirV {
    pub path: Seq<char>,
    pub depth: nat,
}

impl SearchDirEntry {
    pub open spec fn path_spec(self) -> Seq<char> {
        match self {
            SearchDirEntry::Simple(path) => path@,
            SearchDirEntry::Rich { path, .. } => path@,
        }
    }

    /// How deep to search: one level where nothing is said.
    pub open spec fn depth_spec(self) -> u16 {
        match self {
            SearchDirEntry::Rich { depth: Some(depth), .. } => depth,
            _ => DEFAULT_SEARCH_DEPTH,
        }
    }

    pub fn path(&self) -> (path: &String)
        ensures
            path@ == self.path_spec(),
    {
        match self {
            SearchDirEntry::Simple(path) => path,
            SearchDirEntry::Rich { path, .. } => path,
        }
    }

    pub fn depth(&self) -> (depth: u16)
        ensures
            depth == self.depth_spec(),
    {
        match self {
            SearchDirEntry::Simple(_) => DEFAULT_SEARCH_DEPTH,
            SearchDirEntry::Rich { depth, .. } => match depth {
                Some(depth) => *depth,
                None => DEFAULT_SEARCH_DEPTH,
            },
        }
    }
}

/// The order of the repository list.
#[derive(Debug, Clone, Copy, PartialEq, Eq, Structural)]
pub enum SortOrder {
    Alphabetical,
    Recency,
}

/// A color of the terminal's own palette.
#[derive(Debug, Clone, Copy, PartialEq, Eq, Structural)]
pub enum ThemeColor {
    Black,
    Red,
    Green,
    Yellow,
    Blue,
    Magenta,
    Cyan,
    White,
    Gray,
    DarkGray,
    Reset,
}

#[derive(Debug, Clone, Copy, PartialEq, Eq, Structural)]
pub struct ThemeConfig {
    pub accent: ThemeColor,
    pub secondary: ThemeColor,
    pub tertiary: ThemeColor,
    pub error: ThemeColor,
    pub warning: ThemeColor,
    pub muted: ThemeColor,
    pub border: ThemeColor,
    pub hint: ThemeColor,
    pub highlight_fg: ThemeColor,
    pub open: ThemeColor,
}

pub open spec fn default_theme() -> ThemeConfig {
    ThemeConfig {
        accent: ThemeColor::Magenta,
        secondary: ThemeColor::Cyan,
        tertiary: ThemeColor::Green,
        error: ThemeColor::Red,
        warning: ThemeColor::Yellow,
        muted: ThemeColor::DarkGray,
        border: ThemeColor::DarkGray,
        hint: ThemeColor::Blue,
        highlight_fg: ThemeColor::Black,
        open: ThemeColor::Green,
    }
}

impl Default for ThemeConfig {
    fn default() -> (theme: Self)
        ensures
            theme == default_theme(),
    {
        ThemeConfig {
            accent: ThemeColor::Magenta,
            secondary: ThemeColor::Cyan,
            tertiary: ThemeColor::Green,
            error: ThemeColor::Red,
            warning: ThemeColor::Yellow,
            muted: ThemeColor::DarkGray,
            border: ThemeColor::DarkGray,
            hint: ThemeColor::Blue,
            highlight_fg: ThemeColor::Black,
            open: ThemeColor::Green,
        }
    }
}

/// Which side of a pane a new pane opens on.
#[derive(Debug, Clone, Copy, PartialEq, Eq, Structural)]
pub enum OnOpenPaneDirection {
    Left,
    Right,
    Up,
    Down,
}

pub open spec fn direction_name(direction: OnOpenPaneDirection) -> Seq<char> {
    match direction {
        OnOpenPaneDirection::Left => "left"@,
        OnOpenPaneDirection::Right => "right"@,
        OnOpenPaneDirection::Up => "up"@,
        OnOpenPaneDirection::Down => "down"@,
    }
}

impl OnOpenPaneDirection {
    pub fn as_str(self) -> (text: &'static str)
        ensures
            text@ == direction_name(self),
    {
        match self {
            OnOpenPaneDirection::Left => "left",
            OnOpenPaneDirection::Right => "right",
            OnOpenPaneDirection::Up => "up",
            OnOpenPaneDirection::Down => "down",
        }
    }
}

/// A fraction in the binary32 format of IEEE 754, by its bits.
#[derive(Debug, Clone, Copy, PartialEq, Eq, Structural)]
pub struct Ratio {
    pub bits: u32,
}

impl Ratio {
    /// Whether the number lies strictly between zero and one: the positive numbers are
    /// ordered as their bits are, from the bits of zero up to those of one.
    pub open spec fn between_zero_and_one(self) -> bool {
        0 < self.bits < 0x3f80_0000
    }

    pub fn is_fraction(self) -> (answer: bool)
        ensures
            answer == self.between_zero_and_one(),
    {
        0 < self.bits && self.bits < 0x3f80_0000
    }
}

/// A pane to open beside a new workspace, and what to run in it.
#[derive(Debug, PartialEq, Eq)]
pub struct OnOpenPaneConfig {
    pub command: String,
    pub direction: OnOpenPaneDirection,
    pub ratio: Option<Ratio>,
}

pub struct OnOpenPaneConfigV {
    pub command: Seq<char>,
    pub direction: OnOpenPaneDirection,
    pub ratio: Option<Ratio>,
}

impl DeepView for OnOpenPaneConfig {
    type V = OnOpenPaneConfigV;

    open spec fn deep_view(&self) -> OnOpenPaneConfigV {
        OnOpenPaneConfigV {
            command: self.command@,
            direction: self.direction,
            ratio: self.ratio,
        }
    }
}

impl Clone for OnOpenPaneConfig {
    fn clone(&self) -> (pane: Self)
        ensures
            pane.deep_view() == self.deep_view(),
    {
        OnOpenPaneConfig {
            command: self.command.clone(),
            direction: self.direction,
            ratio: self.ratio,
        }
    }
}

#[derive(Debug, PartialEq, Eq)]
pub struct OnOpenConfig {
    pub panes: Vec<OnOpenPaneConfig>,
}

pub struct OnOpenConfigV {
    pub panes: Seq<OnOpenPaneConfigV>,
}

impl DeepView for OnOpenConfig {
    type V = OnOpenConfigV;

    open spec fn deep_view(&self) -> OnOpenConfigV {
        OnOpenConfigV { panes: self.panes.deep_view() }
    }
}

impl Default for OnOpenConfig {
    fn default() -> (config: Self)
        ensures
            config.deep_view() == (OnOpenConfigV { panes: Seq::empty() }),
    {
        let config = OnOpenConfig { panes: Vec::new() };
        assert(config.panes.deep_view() =~= Seq::empty());
        config
    }
}

impl Clone for OnOpenConfig {
    fn clone(&self) -> (config: Self)
        ensures
            config.deep_view() == self.deep_view(),
    {
        let mut panes: Vec<OnOpenPaneConfig> = Vec::new();
        let mut i: usize = 0;
        while i < self.panes.len()
            invariant
                i <= self.panes.len(),
                panes@.len() == i,
                forall|k: int| 0 <= k < i ==> panes@[k].deep_view() == self.panes@[k].deep_view(),
            decreases self.panes.len() - i,
        {
            panes.push(self.panes[i].clone());
            i = i + 1;
        }
        assert(panes.deep_view() =~= self.panes.deep_view());
        OnOpenConfig { panes }
    }
}

#[derive(Debug, PartialEq, Eq)]
pub struct Config {
    pub search_dirs: Vec<SearchDirEntry>,
    pub keys: KeysConfig,
    pub theme: ThemeConfig,
    pub on_open: OnOpenConfig,
    pub sort_order: SortOrder,
}

impl Default for Config {
    fn default() -> (config: Self)
        ensures
            config.search_dirs@.len() == 0,
            config.keys.deep_view() == keys::default_keys(),
            config.keys.deep_view().wf(),
            config.theme == default_theme(),
            config.on_open.deep_view().panes.len() == 0,
            config.sort_order == SortOrder::Alphabetical,
    {
        Config {
            search_dirs: Vec::new(),
            keys: KeysConfig::default(),
            theme: ThemeConfig::default(),
            on_open: OnOpenConfig::default(),
            sort_order: SortOrder::Alphabetical,
        }
    }
}

/// Something about the configuration or the saved state to tell the user of.
#[derive(Debug, PartialEq, Eq)]
pub struct ConfigWarning {
    pub message: String,
}

impl DeepView for ConfigWarning {
    type V = Seq<char>;

    open spec fn deep_view(&self) -> Seq<char> {
        self.message@
    }
}

impl Clone for ConfigWarning {
    fn clone(&self) -> (warning: Self)
        ensures
            warning.deep_view() == self.deep_view(),
    {
        ConfigWarning { message: self.message.clone() }
    }
}

/// Adds one warning.
pub fn push_warning(warnings: &mut Vec<ConfigWarning>, message: String)
    ensures
        final(warnings).deep_view() == old(warnings).deep_view().push(message@),
{
    let ghost before = warnings.deep_view();
    let ghost added = message@;
    warnings.push(ConfigWarning { message });
    assert(warnings.deep_view() =~= before.push(added));
}

/// Adds the second list of warnings behind the first.
pub fn append_warnings(warnings: &mut Vec<ConfigWarning>, more: Vec<ConfigWarning>)
    ensures
        final(warnings).deep_view() == old(warnings).deep_view() + more.deep_view(),
{
    let ghost before = warnings.deep_view();
    let ghost added = more.deep_view();
    let mut more = more;
    warnings.append(&mut more);
    assert(warnings.deep_view() =~= before + added);
}

#[derive(Debug, PartialEq, Eq)]
pub struct ResolvedSearchDirs {
    pub dirs: Vec<(PathBuf, u16)>,
    pub warnings: Vec<ConfigWarning>,
}

#[derive(Debug, PartialEq, Eq)]
pub struct LoadedConfig {
    pub config: Config,
    pub path: Option<PathBuf>,
    pub exists: bool,
    pub warnings: Vec<ConfigWarning>,
}

#[derive(Debug, PartialEq, Eq)]
pub struct ConfigPathResolution {
    pub path: Option<PathBuf>,
    pub warnings: Vec<ConfigWarning>,
}

/// Where a path with a leading tilde points to, or that there is no home directory.
pub open spec fn tilde_expanded(path: Seq<char>, home: Option<Seq<u8>>, rules: PathRules) -> Result<
    Seq<u8>,
    Seq<char>,
> {
    let slashed = begins_with(path, "~/"@);
    let backslashed = begins_with(path, "~\\"@);
    if path == "~"@ || slashed || backslashed {
        match home {
            None => Err("cannot expand '"@ + path + "' because HOME is unavailable"@),
            Some(home) => if path == "~"@ {
                Ok(home)
            } else if slashed {
                Ok(joined_path(home, encode_utf8(path.skip("~/"@.len() as int)), rules))
            } else {
                Ok(joined_path(home, encode_utf8(path.skip("~\\"@.len() as int)), rules))
            },
        }
    } else {
        Ok(encode_utf8(path))
    }
}

/// The path behind a leading tilde and a separator.
pub fn below_tilde(path: &str) -> (rest: Option<String>)
    ensures
        match rest {
            Some(value) => (begins_with(path@, "~/"@) && value@ == path@.skip(
                "~/"@.len() as int,
            )) || (!begins_with(path@, "~/"@) && begins_with(path@, "~\\"@) && value@
                == path@.skip("~\\"@.len() as int)),
            None => !begins_with(path@, "~/"@) && !begins_with(path@, "~\\"@),
        },
{
    match strip_prefix(path, "~/") {
        Some(rest) => Some(rest),
        None => strip_prefix(path, "~\\"),
    }
}

pub fn expand_tilde(path: &str, home: Option<&PathBuf>, rules: PathRules) -> (result: Result<PathBuf, String>)
    ensures
        match tilde_expanded(
            path@,
            home.deep_view(),
            rules,
        ) {
            Ok(expanded) => result matches Ok(found) && found@ == expanded,
            Err(problem) => result matches Err(message) && message@ == problem,
        },
{
    let is_home = same_text(path, "~");
    let rest = if is_home {
        None
    } else {
        below_tilde(path)
    };
    proof {
        reveal_strlit("~");
        reveal_strlit("~/");
        reveal_strlit("~\\");
        if is_home {
            assert(!begins_with(path@, "~/"@));
            assert(!begins_with(path@, "~\\"@));
        }
    }
    if !is_home && rest.is_none() {
        return Ok(PathBuf::new(path));
    }
    match home {
        None => Err(concat3("cannot expand '", path, "' because HOME is unavailable")),
        Some(home) => match rest {
            None => Ok(home.clone()),
            Some(rest) => Ok(home.join(&PathBuf::new(rest.as_str()), rules)),
        },
    }
}

pub open spec fn missing_dir_message(path: Seq<u8>) -> Seq<char> {
    "configured search directory does not exist or is not a directory: "@ + lossy_text(path)
}

/// The expanded search directories, in order, or the first path that cannot be expanded.
pub open spec fn expanded_dirs(entries: Seq<SearchDirEntry>, home: Option<Seq<u8>>, rules: PathRules) -> Result<
    Seq<(Seq<u8>, u16)>,
    Seq<char>,
>
    decreases entries.len(),
{
    if entries.len() == 0 {
        Ok(Seq::empty())
    } else {
        match expanded_dirs(entries.drop_last(), home, rules) {
            Err(problem) => Err(problem),
            Ok(before) => match tilde_expanded(entries.last().path_spec(), home, rules) {
                Err(problem) => Err(problem),
                Ok(path) => Ok(before.push((path, entries.last().depth_spec()))),
            },
        }
    }
}

/// The directories that are there, given which ones are.
pub open spec fn present_dirs(dirs: Seq<(Seq<u8>, u16)>, present: Seq<bool>) -> Seq<(Seq<u8>, u16)>
    decreases dirs.len(),
{
    if dirs.len() == 0 {
        Seq::empty()
    } else {
        let before = present_dirs(dirs.drop_last(), present);
        if present[dirs.len() - 1] {
            before.push(dirs.last())
        } else {
            before
        }
    }
}

/// One message for each directory that is not there.
pub open spec fn absent_dirs(dirs: Seq<(Seq<u8>, u16)>, present: Seq<bool>) -> Seq<Seq<char>>
    decreases dirs.len(),
{
    if dirs.len() == 0 {
        Seq::empty()
    } else {
        let before = absent_dirs(dirs.drop_last(), present);
        if present[dirs.len() - 1] {
            before
        } else {
            before.push(missing_dir_message(dirs.last().0))
        }
    }
}

proof fn lemma_expanded_fails_early(entries: Seq<SearchDirEntry>, home: Option<Seq<u8>>, count: int, rules: PathRules)
    requires
        0 <= count <= entries.len(),
    ensures
        expanded_dirs(entries.take(count), home, rules) is Err ==> expanded_dirs(entries, home, rules)
            == expanded_dirs(entries.take(count), home, rules),
    decreases entries.len(),
{
    if count == entries.len() {
        assert(entries.take(count) =~= entries);
    } else {
        lemma_expanded_fails_early(entries.drop_last(), home, count, rules);
        assert(entries.drop_last().take(count) =~= entries.take(count));
    }
}

#[verifier::loop_isolation(false)]
fn expand_dirs(entries: &Vec<SearchDirEntry>, home: Option<&PathBuf>, rules: PathRules) -> (result: Result<
    Vec<(PathBuf, u16)>,
    String,
>)
    ensures
        match expanded_dirs(
            entries@,
            home.deep_view(),
            rules,
        ) {
            Ok(dirs) => result matches Ok(found) && found.deep_view() == dirs,
            Err(problem) => result matches Err(message) && message@ == problem,
        },
{
    let ghost home_view = home.deep_view();
    let mut dirs: Vec<(PathBuf, u16)> = Vec::new();
    assert(dirs.deep_view() =~= Seq::empty());
    let mut i: usize = 0;
    while i < entries.len()
        invariant
            i <= entries.len(),
            expanded_dirs(entries@.take(i as int), home_view, rules) == Ok::<
                Seq<(Seq<u8>, u16)>,
                Seq<char>,
            >(dirs.deep_view()),
        decreases entries.len() - i,
    {
        let ghost before = dirs.deep_view();
        proof {
            assert(entries@.take(i + 1).drop_last() =~= entries@.take(i as int));
            assert(entries@.take(i + 1).last() == entries@[i as int]);
            lemma_expanded_fails_early(entries@, home_view, i + 1, rules);
        }
        match expand_tilde(entries[i].path().as_str(), home, rules) {
            Ok(path) => {
                let ghost added = (path@, entries@[i as int].depth_spec());
                dirs.push((path, entries[i].depth()));
                assert(dirs.deep_view() =~= before.push(added));
            },
            Err(problem) => {
                return Err(problem);
            },
        }
        i = i + 1;
    }
    assert(entries@.take(entries@.len() as int) =~= entries@);
    Ok(dirs)
}

/// Whether `is_dir` may give the answer for a directory.
pub open spec fn answers<F: Fn(&PathBuf) -> bool>(is_dir: F, dir: Seq<u8>, answer: bool) -> bool {
    exists|path: PathBuf| path@ == dir && #[trigger] call_ensures(is_dir, (&path,), answer)
}

/// The directories that `is_dir` finds and the warnings for the others, where it gives the
/// answers `present`.
pub open spec fn split_by_presence<F: Fn(&PathBuf) -> bool>(
    dirs: Seq<(Seq<u8>, u16)>,
    is_dir: F,
    found: ResolvedSearchDirs,
    present: Seq<bool>,
) -> bool {
    &&& present.len() == dirs.len()
    &&& forall|i: int| 0 <= i < dirs.len() ==> #[trigger] answers(is_dir, dirs[i].0, present[i])
    &&& found.dirs.deep_view() == present_dirs(dirs, present)
    &&& found.warnings.deep_view() == absent_dirs(dirs, present)
}

/// What resolving the search directories gives once they are expanded.
pub open spec fn search_dirs_resolved<F: Fn(&PathBuf) -> bool>(
    expanded: Result<Seq<(Seq<u8>, u16)>, Seq<char>>,
    is_dir: F,
    result: Result<ResolvedSearchDirs, String>,
) -> bool {
    match expanded {
        Err(problem) => result is Err && result->Err_0@ == problem,
        Ok(dirs) => result is Ok && exists|present: Seq<bool>| #[trigger]
            split_by_presence(dirs, is_dir, result->Ok_0, present),
    }
}

impl Config {
    /// Expands the search directories and keeps those that `is_dir` finds, in order; each of
    /// the others is warned of.
    #[verifier::loop_isolation(false)]
    pub fn resolved_search_dirs_with(
        &self,
        home: Option<&PathBuf>,
        is_dir: impl Fn(&PathBuf) -> bool,
        rules: PathRules,
    ) -> (result: Result<ResolvedSearchDirs, String>)
        requires
            forall|path: &PathBuf| call_requires(is_dir, (path,)),
        ensures
            search_dirs_resolved(
                expanded_dirs(self.search_dirs@, home.deep_view(), rules),
                is_dir,
                result,
            ),
    {
        let expanded = match expand_dirs(&self.search_dirs, home, rules) {
            Ok(dirs) => dirs,
            Err(problem) => {
                return Err(problem);
            },
        };
        let ghost all = expanded.deep_view();
        assert(expanded_dirs(self.search_dirs@, home.deep_view(), rules) == Ok::<
            Seq<(Seq<u8>, u16)>,
            Seq<char>,
        >(all));
        let mut dirs: Vec<(PathBuf, u16)> = Vec::new();
        let mut warnings: Vec<ConfigWarning> = Vec::new();
        let ghost mut present: Seq<bool> = Seq::empty();
        assert(dirs.deep_view() =~= Seq::empty());
        assert(warnings.deep_view() =~= Seq::empty());
        let mut i: usize = 0;
        while i < expanded.len()
            invariant
                i <= expanded.len(),
                present.len() == i,
                forall|k: int| 0 <= k < i ==> #[trigger] answers(is_dir, all[k].0, present[k]),
                dirs.deep_view() == present_dirs(all.take(i as int), present),
                warnings.deep_view() == absent_dirs(all.take(i as int), present),
            decreases expanded.len() - i,
        {
            let ghost before = dirs.deep_view();
            let path: &PathBuf = &expanded[i].0;
            let there = is_dir(path);
            proof {
                let ghost earlier = present;
                lemma_present_prefix(all.take(i as int), present, present.push(there));
                present = present.push(there);
                assert(present.drop_last() =~= earlier);
                assert(all.take(i + 1).drop_last() =~= all.take(i as int));
                assert(all.take(i + 1).last() == expanded@[i as int].deep_view());
                assert(call_ensures(is_dir, (&expanded@[i as int].0,), there));
                assert forall|k: int| 0 <= k < i + 1 implies #[trigger] answers(
                    is_dir,
                    all[k].0,
                    present[k],
                ) by {
                    if k < i {
                        assert(answers(is_dir, all[k].0, present.drop_last()[k]));
                    }
                }
            }
            if there {
                let ghost added = all[i as int];
                dirs.push((path.clone(), expanded[i].1));
                assert(dirs.deep_view() =~= before.push(added));
            } else {
                let shown = decode_lossy(path.bytes.as_slice());
                push_warning(
                    &mut warnings,
                    concat(
                        "configured search directory does not exist or is not a directory: ",
                        shown.as_str(),
                    ),
                );
            }
            i = i + 1;
        }
        assert(all.take(all.len() as int) =~= all);
        let found = ResolvedSearchDirs { dirs, warnings };
        assert(split_by_presence(all, is_dir, found, present));
        let result: Result<ResolvedSearchDirs, String> = Ok(found);
        assert(result->Ok_0 == found);
        assert(split_by_presence(all, is_dir, result->Ok_0, present));
        result
    }
}

proof fn lemma_present_prefix(dirs: Seq<(Seq<u8>, u16)>, present: Seq<bool>, longer: Seq<bool>)
    requires
        dirs.len() <= present.len() <= longer.len(),
        forall|i: int| 0 <= i < present.len() ==> longer[i] == present[i],
    ensures
        present_dirs(dirs, longer) == present_dirs(dirs, present),
        absent_dirs(dirs, longer) == absent_dirs(dirs, present),
    decreases dirs.len(),
{
    if dirs.len() > 0 {
        lemma_present_prefix(dirs.drop_last(), present, longer);
    }
}

/// A directory from the environment that may hold a file of this program.
#[derive(Debug)]
pub struct Candidate {
    /// The variable that named it.
    pub source: &'static str,
    pub base: PathBuf,
    /// Whether the file lies in a directory of this program below it.
    pub add_app_dir: bool,
}

pub struct CandidateV {
    pub source: Seq<char>,
    pub base: Seq<u8>,
    pub add_app_dir: bool,
}

impl DeepView for Candidate {
    type V = CandidateV;

    open spec fn deep_view(&self) -> CandidateV {
        CandidateV {
            source: self.source@,
            base: self.base@,
            add_app_dir: self.add_app_dir,
        }
    }
}

/// Where the file lies below a candidate.
pub open spec fn candidate_file(candidate: CandidateV, file_name: Seq<char>, rules: PathRules) -> Seq<u8> {
    let dir = if candidate.add_app_dir {
        joined_path(candidate.base, APP_NAME.spec_bytes(), rules)
    } else {
        candidate.base
    };
    joined_path(dir, encode_utf8(file_name), rules)
}

pub open spec fn relative_message(kind: Seq<char>, candidate: CandidateV) -> Seq<char> {
    "refusing relative "@ + kind + " directory from "@ + candidate.source + ": "@ + lossy_text(
        candidate.base,
    )
}

/// The file below the first absolute candidate. Relative ones are refused: a directory that
/// the program happens to be in could supply the file otherwise.
pub open spec fn trusted_file(
    candidates: Seq<CandidateV>,
    file_name: Seq<char>,
    kind: Seq<char>,
    rules: PathRules,
) -> (Option<Seq<u8>>, Seq<Seq<char>>)
    decreases candidates.len(),
{
    if candidates.len() == 0 {
        (None, Seq::empty())
    } else if absolute(candidates[0].base, rules) {
        (Some(candidate_file(candidates[0], file_name, rules)), Seq::empty())
    } else {
        let (path, warnings) = trusted_file(candidates.drop_first(), file_name, kind, rules);
        (path, seq![relative_message(kind, candidates[0])] + warnings)
    }
}

pub(crate) fn resolve_trusted_file_path(
    candidates: Vec<Candidate>,
    file_name: &str,
    directory_kind: &str,
    rules: PathRules,
) -> (result: (Option<PathBuf>, Vec<ConfigWarning>))
    ensures
        (result.0.deep_view(), result.1.deep_view()) == trusted_file(
            candidates.deep_view(),
            file_name@,
            directory_kind@,
            rules,
        ),
{
    let ghost all = candidates.deep_view();
    let ghost wanted = trusted_file(all, file_name@, directory_kind@, rules);
    let mut warnings: Vec<ConfigWarning> = Vec::new();
    let mut i: usize = 0;
    assert(all.skip(0) =~= all);
    assert(warnings.deep_view() + trusted_file(all, file_name@, directory_kind@, rules).1 =~= wanted.1);
    while i < candidates.len()
        invariant
            i <= candidates.len(),
            all == candidates.deep_view(),
            wanted == trusted_file(all, file_name@, directory_kind@, rules),
            wanted.0 == trusted_file(all.skip(i as int), file_name@, directory_kind@, rules).0,
            wanted.1 == warnings.deep_view() + trusted_file(
                all.skip(i as int),
                file_name@,
                directory_kind@,
                rules,
            ).1,
        decreases candidates.len() - i,
    {
        let candidate: &Candidate = &candidates[i];
        let ghost before = warnings.deep_view();
        proof {
            assert(all.skip(i as int)[0] == candidate.deep_view());
            assert(all.skip(i as int).drop_first() =~= all.skip(i + 1));
        }
        if candidate.base.is_absolute(rules) {
            let name = PathBuf::new(file_name);
            let path = if candidate.add_app_dir {
                candidate.base.join(&PathBuf::new(APP_NAME), rules).join(&name, rules)
            } else {
                candidate.base.join(&name, rules)
            };
            assert(warnings.deep_view() =~= wanted.1);
            return (Some(path), warnings);
        }
        let shown = decode_lossy(candidate.base.bytes.as_slice());
        let mut message = concat3("refusing relative ", directory_kind, " directory from ");
        message.push_str(candidate.source);
        message.push_str(": ");
        message.push_str(shown.as_str());
        push_warning(&mut warnings, message);
        i = i + 1;
        assert(wanted.1 =~= warnings.deep_view() + trusted_file(
            all.skip(i as int),
            file_name@,
            directory_kind@,
            rules,
        ).1);
    }
    assert(all.skip(i as int) =~= Seq::<CandidateV>::empty());
    assert(warnings.deep_view() =~= wanted.1);
    (None, warnings)
}

/// The candidates that three variables name, in order: a directory of this program alone, a
/// directory of the user, and the user's home with what lies below it. A variable that is
/// unset or empty names none.
pub open spec fn env_candidates(
    plugin: (Seq<char>, Option<Seq<char>>),
    shared: (Seq<char>, Option<Seq<char>>),
    home: Option<Seq<char>>,
    below_home: Seq<char>,
    rules: PathRules,
) -> Seq<CandidateV> {
    let first = match plugin.1 {
        Some(value) if value.len() > 0 => seq![
            CandidateV { source: plugin.0, base: encode_utf8(value), add_app_dir: false },
        ],
        _ => Seq::empty(),
    };
    let second = match shared.1 {
        Some(value) if value.len() > 0 => seq![
            CandidateV { source: shared.0, base: encode_utf8(value), add_app_dir: true },
        ],
        _ => Seq::empty(),
    };
    let third = match home {
        Some(value) if value.len() > 0 => seq![
            CandidateV {
                source: "HOME"@,
                base: joined_path(encode_utf8(value), encode_utf8(below_home), rules),
                add_app_dir: true,
            },
        ],
        _ => Seq::empty(),
    };
    first + second + third
}

pub(crate) fn collect_candidates(
    plugin: (&'static str, Option<String>),
    shared: (&'static str, Option<String>),
    home: Option<String>,
    below_home: &str,
    rules: PathRules,
) -> (candidates: Vec<Candidate>)
    ensures
        candidates.deep_view() == env_candidates(
            (plugin.0@, plugin.1.deep_view()),
            (shared.0@, shared.1.deep_view()),
            home.deep_view(),
            below_home@,
            rules,
        ),
{
    let ghost wanted = env_candidates(
        (plugin.0@, plugin.1.deep_view()),
        (shared.0@, shared.1.deep_view()),
        home.deep_view(),
        below_home@,
        rules,
    );
    let mut candidates: Vec<Candidate> = Vec::new();
    match &plugin.1 {
        Some(value) => {
            if !value.as_str().is_empty() {
                candidates.push(
                    Candidate {
                        source: plugin.0,
                        base: PathBuf::new(value.as_str()),
                        add_app_dir: false,
                    },
                );
            }
        },
        None => {},
    }
    match &shared.1 {
        Some(value) => {
            if !value.as_str().is_empty() {
                candidates.push(
                    Candidate {
                        source: shared.0,
                        base: PathBuf::new(value.as_str()),
                        add_app_dir: true,
                    },
                );
            }
        },
        None => {},
    }
    match &home {
        Some(value) => {
            if !value.as_str().is_empty() {
                let base = PathBuf::new(value.as_str()).join(&PathBuf::new(below_home), rules);
                candidates.push(Candidate { source: "HOME", base, add_app_dir: true });
            }
        },
        None => {},
    }
    assert(candidates.deep_view() =~= wanted);
    candidates
}

/// Where the configuration file lies, given what the three variables hold.
pub open spec fn config_path_of(
    plugin: Option<Seq<char>>,
    xdg: Option<Seq<char>>,
    home: Option<Seq<char>>,
    rules: PathRules,
) -> (Option<Seq<u8>>, Seq<Seq<char>>) {
    trusted_file(
        env_candidates(
            ("HERDR_PLUGIN_CONFIG_DIR"@, plugin),
            ("XDG_CONFIG_HOME"@, xdg),
            home,
            ".config"@,
            rules,
        ),
        "config.toml"@,
        "config"@,
        rules,
    )
}

/// Finds where the configuration file lies; `get_env` looks variables up.
pub fn resolve_config_path(get_env: impl Fn(&str) -> Option<String>, rules: PathRules) -> (resolution:
    ConfigPathResolution)
    requires
        forall|name: &str| call_requires(get_env, (name,)),
    ensures
        exists|plugin: Option<String>, xdg: Option<String>, home: Option<String>|
            {
                &&& call_ensures(get_env, ("HERDR_PLUGIN_CONFIG_DIR",), plugin)
                &&& call_ensures(get_env, ("XDG_CONFIG_HOME",), xdg)
                &&& call_ensures(get_env, ("HOME",), home)
                &&& (resolution.path.deep_view(), resolution.warnings.deep_view())
                    == #[trigger] config_path_of(
                    plugin.deep_view(),
                    xdg.deep_view(),
                    home.deep_view(),
                    rules,
                )
            },
{
    let plugin = get_env("HERDR_PLUGIN_CONFIG_DIR");
    let xdg = get_env("XDG_CONFIG_HOME");
    let home = get_env("HOME");
    let ghost found = (plugin, xdg, home);
    let candidates = collect_candidates(
        ("HERDR_PLUGIN_CONFIG_DIR", plugin),
        ("XDG_CONFIG_HOME", xdg),
        home,
        ".config",
        rules,
    );
    let (path, warnings) = resolve_trusted_file_path(candidates, "config.toml", "config", rules);
    proof {
        let c = config_path_of(found.0.deep_view(), found.1.deep_view(), found.2.deep_view(), rules);
        assert((path.deep_view(), warnings.deep_view()) == c);
    }
    ConfigPathResolution { path, warnings }
}

/// What is wrong with a search directory.
pub open spec fn search_dir_problem(entry: SearchDirEntry) -> Option<Seq<char>> {
    if trimmed(entry.path_spec()).len() == 0 {
        Some("search directory path must not be empty"@)
    } else if entry.depth_spec() == 0 {
        Some("search directory depth must be at least 1 for "@ + entry.path_spec())
    } else {
        None
    }
}

/// What is wrong with the pane at position `index`.
pub open spec fn pane_problem(pane: OnOpenPaneConfigV, index: nat) -> Option<Seq<char>> {
    if trimmed(pane.command).len() == 0 {
        Some("on_open pane "@ + decimal(index + 1) + " command must not be empty"@)
    } else if pane.ratio is Some && !pane.ratio->0.between_zero_and_one() {
        Some(
            "on_open pane "@ + decimal(index + 1)
                + " ratio must be greater than 0 and less than 1"@,
        )
    } else {
        None
    }
}

pub open spec fn first_search_dir_problem(entries: Seq<SearchDirEntry>) -> Option<Seq<char>>
    decreases entries.len(),
{
    if entries.len() == 0 {
        None
    } else {
        match first_search_dir_problem(entries.drop_last()) {
            Some(problem) => Some(problem),
            None => search_dir_problem(entries.last()),
        }
    }
}

pub open spec fn first_pane_problem(panes: Seq<OnOpenPaneConfigV>) -> Option<Seq<char>>
    decreases panes.len(),
{
    if panes.len() == 0 {
        None
    } else {
        match first_pane_problem(panes.drop_last()) {
            Some(problem) => Some(problem),
            None => pane_problem(panes.last(), (panes.len() - 1) as nat),
        }
    }
}

/// The first thing that is wrong with a configuration.
pub open spec fn config_problem(
    search_dirs: Seq<SearchDirEntry>,
    panes: Seq<OnOpenPaneConfigV>,
) -> Option<Seq<char>> {
    match first_search_dir_problem(search_dirs) {
        Some(problem) => Some(problem),
        None => first_pane_problem(panes),
    }
}

proof fn lemma_first_search_dir_problem(entries: Seq<SearchDirEntry>, count: int)
    requires
        0 <= count <= entries.len(),
    ensures
        first_search_dir_problem(entries.take(count)) is Some ==> first_search_dir_problem(entries)
            == first_search_dir_problem(entries.take(count)),
    decreases entries.len(),
{
    if count == entries.len() {
        assert(entries.take(count) =~= entries);
    } else {
        lemma_first_search_dir_problem(entries.drop_last(), count);
        assert(entries.drop_last().take(count) =~= entries.take(count));
    }
}

proof fn lemma_first_pane_problem(panes: Seq<OnOpenPaneConfigV>, count: int)
    requires
        0 <= count <= panes.len(),
    ensures
        first_pane_problem(panes.take(count)) is Some ==> first_pane_problem(panes)
            == first_pane_problem(panes.take(count)),
    decreases panes.len(),
{
    if count == panes.len() {
        assert(panes.take(count) =~= panes);
    } else {
        lemma_first_pane_problem(panes.drop_last(), count);
        assert(panes.drop_last().take(count) =~= panes.take(count));
    }
}

/// Checks what a configuration file may get wrong beyond its format.
#[verifier::loop_isolation(false)]
pub fn validate_config(config: &Config) -> (result: Result<(), String>)
    ensures
        match config_problem(config.search_dirs@, config.on_open.deep_view().panes) {
            None => result is Ok,
            Some(problem) => result matches Err(message) && message@ == problem,
        },
{
    let dirs: &Vec<SearchDirEntry> = &config.search_dirs;
    let mut i: usize = 0;
    while i < dirs.len()
        invariant
            i <= dirs.len(),
            first_search_dir_problem(dirs@.take(i as int)) is None,
        decreases dirs.len() - i,
    {
        proof {
            assert(dirs@.take(i + 1).drop_last() =~= dirs@.take(i as int));
            assert(dirs@.take(i + 1).last() == dirs@[i as int]);
            lemma_first_search_dir_problem(dirs@, i + 1);
        }
        if is_blank(dirs[i].path().as_str()) {
            return Err(owned("search directory path must not be empty"));
        }
        if dirs[i].depth() == 0 {
            return Err(
                concat(
                    "search directory depth must be at least 1 for ",
                    dirs[i].path().as_str(),
                ),
            );
        }
        i = i + 1;
    }
    assert(dirs@.take(dirs@.len() as int) =~= dirs@);
    let panes: &Vec<OnOpenPaneConfig> = &config.on_open.panes;
    let ghost all = panes.deep_view();
    let mut k: usize = 0;
    while k < panes.len()
        invariant
            k <= panes.len(),
            first_pane_problem(all.take(k as int)) is None,
        decreases panes.len() - k,
    {
        proof {
            assert(all.take(k + 1).drop_last() =~= all.take(k as int));
            assert(all.take(k + 1).last() == panes@[k as int].deep_view());
            lemma_first_pane_problem(all, k + 1);
        }
        let number = decimal_text(k as u64 + 1);
        if is_blank(panes[k].command.as_str()) {
            return Err(
                concat3("on_open pane ", number.as_str(), " command must not be empty"),
            );
        }
        match panes[k].ratio {
            Some(ratio) => {
                if !ratio.is_fraction() {
                    return Err(
                        concat3(
                            "on_open pane ",
                            number.as_str(),
                            " ratio must be greater than 0 and less than 1",
                        ),
                    );
                }
            },
            None => {},
        }
        k = k + 1;
    }
    assert(all.take(all.len() as int) =~= all);
    Ok(())
}

/// One warning for each key that a configuration file has and this program does not know.
pub open spec fn unknown_key_warnings(keys: Seq<Seq<char>>) -> Seq<Seq<char>> {
    keys.map_values(|key: Seq<char>| "unknown config key ignored: "@ + key)
}

/// The last step of reading a configuration file: checks what was read and warns of the keys
/// that were ignored.
#[verifier::loop_isolation(false)]
pub fn checked_config(config: Config, unknown_keys: &Vec<String>) -> (result: Result<
    (Config, Vec<ConfigWarning>),
    String,
>)
    ensures
        match config_problem(config.search_dirs@, config.on_open.deep_view().panes) {
            None => result matches Ok(found) && found.0 == config && found.1.deep_view()
                == unknown_key_warnings(unknown_keys.deep_view()),
            Some(problem) => result matches Err(message) && message@ == problem,
        },
{
    match validate_config(&config) {
        Ok(_) => {},
        Err(problem) => {
            return Err(problem);
        },
    }
    let ghost wanted = unknown_key_warnings(unknown_keys.deep_view());
    let mut warnings: Vec<ConfigWarning> = Vec::new();
    let mut i: usize = 0;
    while i < unknown_keys.len()
        invariant
            i <= unknown_keys.len(),
            warnings@.len() == i,
            forall|k: int| 0 <= k < i ==> (#[trigger] warnings@[k]).message@ == wanted[k],
        decreases unknown_keys.len() - i,
    {
        let message = concat("unknown config key ignored: ", unknown_keys[i].as_str());
        warnings.push(ConfigWarning { message });
        i = i + 1;
    }
    assert(warnings.deep_view() =~= wanted);
    Ok((config, warnings))
}

/// Loads the configuration: `get_env` looks variables up, `read_file` reads a file that may
/// be missing, and `parse` reads a configuration file. Without a trusted path, and without
/// a file at it, the defaults hold.
pub fn load_config_with(
    get_env: impl Fn(&str) -> Option<String>,
    read_file: impl Fn(&PathBuf) -> Result<Option<String>, String>,
    parse: impl Fn(&str) -> Result<(Config, Vec<ConfigWarning>), String>,
    rules: PathRules,
) -> (result: Result<LoadedConfig, String>)
    requires
        forall|name: &str| call_requires(get_env, (name,)),
        forall|path: &PathBuf| call_requires(read_file, (path,)),
        forall|text: &str| call_requires(parse, (text,)),
    ensures
        exists|plugin: Option<String>, xdg: Option<String>, home: Option<String>|
            {
                &&& call_ensures(get_env, ("HERDR_PLUGIN_CONFIG_DIR",), plugin)
                &&& call_ensures(get_env, ("XDG_CONFIG_HOME",), xdg)
                &&& call_ensures(get_env, ("HOME",), home)
                &&& config_loaded(
                    #[trigger] config_path_of(
                        plugin.deep_view(),
                        xdg.deep_view(),
                        home.deep_view(),
                        rules,
                    ),
                    read_file,
                    parse,
                    result,
                )
            },
{
    let resolution = resolve_config_path(get_env, rules);
    let ghost found = (resolution.path.deep_view(), resolution.warnings.deep_view());
    let path = match resolution.path {
        Some(path) => path,
        None => {
            let loaded: Result<LoadedConfig, String> = Ok(
                LoadedConfig {
                    config: Config::default(),
                    path: None,
                    exists: false,
                    warnings: resolution.warnings,
                },
            );
            assert(config_loaded(found, read_file, parse, loaded));
            return loaded;
        },
    };
    let read = read_file(&path);
    let ghost read_result = read;
    assert(call_ensures(read_file, (&path,), read_result));
    let contents = match read {
        Err(problem) => {
            let shown = decode_lossy(path.bytes.as_slice());
            let mut message = concat3("failed to read config ", shown.as_str(), ": ");
            message.push_str(problem.as_str());
            let failed: Result<LoadedConfig, String> = Err(message);
            assert(config_loaded(found, read_file, parse, failed));
            return failed;
        },
        Ok(None) => {
            let ghost place = path;
            let loaded: Result<LoadedConfig, String> = Ok(
                LoadedConfig {
                    config: Config::default(),
                    path: Some(path),
                    exists: false,
                    warnings: resolution.warnings,
                },
            );
            assert(call_ensures(read_file, (&place,), read_result));
            assert(config_loaded(found, read_file, parse, loaded));
            return loaded;
        },
        Ok(Some(contents)) => contents,
    };
    let parsed = parse(contents.as_str());
    let ghost parse_result = parsed;
    match parsed {
        Err(problem) => {
            let shown = decode_lossy(path.bytes.as_slice());
            let mut message = concat3("in ", shown.as_str(), ": ");
            message.push_str(problem.as_str());
            let failed: Result<LoadedConfig, String> = Err(message);
            assert(parsed_config(found, contents@, parse, parse_result, failed));
            assert(config_loaded(found, read_file, parse, failed));
            failed
        },
        Ok((config, parse_warnings)) => {
            let mut warnings = resolution.warnings;
            append_warnings(&mut warnings, parse_warnings);
            let ghost place = path;
            let loaded: Result<LoadedConfig, String> = Ok(
                LoadedConfig { config, path: Some(path), exists: true, warnings },
            );
            assert(call_ensures(read_file, (&place,), read_result));
            assert(parsed_config(found, contents@, parse, parse_result, loaded));
            assert(config_loaded(found, read_file, parse, loaded));
            loaded
        },
    }
}

pub open spec fn is_default_config(config: Config) -> bool {
    &&& config.search_dirs@.len() == 0
    &&& config.keys.deep_view() == keys::default_keys()
    &&& config.theme == default_theme()
    &&& config.on_open.deep_view().panes.len() == 0
    &&& config.sort_order == SortOrder::Alphabetical
}

/// What loading gives where the file at a trusted path was read and then parsed.
pub open spec fn parsed_config<P: Fn(&str) -> Result<(Config, Vec<ConfigWarning>), String>>(
    resolution: (Option<Seq<u8>>, Seq<Seq<char>>),
    contents: Seq<char>,
    parse: P,
    parsed: Result<(Config, Vec<ConfigWarning>), String>,
    result: Result<LoadedConfig, String>,
) -> bool {
    &&& exists|text: &str| text@ == contents && #[trigger] call_ensures(parse, (text,), parsed)
    &&& match parsed {
        Err(problem) => result matches Err(message) && message@ == "in "@ + lossy_text(
            resolution.0->0,
        ) + ": "@ + problem@,
        Ok((config, more)) => {
            &&& result matches Ok(loaded)
            &&& loaded.config == config
            &&& loaded.path.deep_view() == resolution.0
            &&& loaded.exists
            &&& loaded.warnings.deep_view() == resolution.1 + more.deep_view()
        },
    }
}

/// What loading gives for a resolved path, what `read_file` finds there and what `parse`
/// makes of it.
pub open spec fn config_loaded<
    R: Fn(&PathBuf) -> Result<Option<String>, String>,
    P: Fn(&str) -> Result<(Config, Vec<ConfigWarning>), String>,
>(
    resolution: (Option<Seq<u8>>, Seq<Seq<char>>),
    read_file: R,
    parse: P,
    result: Result<LoadedConfig, String>,
) -> bool {
    match resolution.0 {
        None => {
            &&& result matches Ok(loaded)
            &&& is_default_config(loaded.config)
            &&& loaded.path is None
            &&& !loaded.exists
            &&& loaded.warnings.deep_view() == resolution.1
        },
        Some(place) => exists|path: PathBuf, read: Result<Option<String>, String>|
            {
                &&& path@ == place
                &&& #[trigger] call_ensures(read_file, (&path,), read)
                &&& match read {
                    Err(problem) => result matches Err(message) && message@
                        == "failed to read config "@ + lossy_text(place) + ": "@ + problem@,
                    Ok(None) => {
                        &&& result matches Ok(loaded)
                        &&& is_default_config(loaded.config)
                        &&& loaded.path.deep_view() == Some(place)
                        &&& !loaded.exists
                        &&& loaded.warnings.deep_view() == resolution.1
                    },
                    Ok(Some(contents)) => exists|
                        parsed: Result<(Config, Vec<ConfigWarning>), String>,
                    |
                        #[trigger] parsed_config(resolution, contents@, parse, parsed, result),
                }
            },
    }
}

} // verus!
