//! Files that keep state between runs: where they lie, what is wrong with them and what they
//! are called.

use crate::config::{collect_candidates, env_candidates, resolve_trusted_file_path, trusted_file, ConfigWarning};
use crate::path::{is_parent_end, joined_path, parts, PathBuf, PathRules};
use crate::text::{concat, concat3, decimal, decimal_text, decode, decode_lossy, lossy_text, owned};
use vstd::prelude::*;
use vstd::string::*;
use vstd::utf8::{decode_utf8, encode_utf8, valid_utf8};

verus! {

#[derive(Debug, PartialEq, Eq)]
pub struct StatePathResolution {
    pub path: Option<PathBuf>,
    pub warnings: Vec<ConfigWarning>,
}

/// Where a state file lies, given what the three variables hold.
pub open spec fn state_path_of(
    file_name: Seq<char>,
    plugin: Option<Seq<char>>,
    xdg: Option<Seq<char>>,
    home: Option<Seq<char>>,
    rules: PathRules,
) -> (Option<Seq<u8>>, Seq<Seq<char>>) {
    trusted_file(
        env_candidates(
            ("HERDR_PLUGIN_STATE_DIR"@, plugin),
            ("XDG_STATE_HOME"@, xdg),
            home,
            ".local/state"@,
            rules,
        ),
        file_name,
        "state"@,
        rules,
    )
}

/// Finds where a state file lies; `get_env` looks variables up.
pub fn resolve_state_path(file_name: &str, get_env: impl Fn(&str) -> Option<String>, rules: PathRules) -> (resolution:
    StatePathResolution)
    requires
        forall|name: &str| call_requires(get_env, (name,)),
    ensures
        exists|plugin: Option<String>, xdg: Option<String>, home: Option<String>|
            {
                &&& call_ensures(get_env, ("HERDR_PLUGIN_STATE_DIR",), plugin)
                &&& call_ensures(get_env, ("XDG_STATE_HOME",), xdg)
                &&& call_ensures(get_env, ("HOME",), home)
                &&& (resolution.path.deep_view(), resolution.warnings.deep_view())
                    == #[trigger] state_path_of(
                    file_name@,
                    plugin.deep_view(),
                    xdg.deep_view(),
                    home.deep_view(),
                    rules,
                )
            },
{
    let plugin = get_env("HERDR_PLUGIN_STATE_DIR");
    let xdg = get_env("XDG_STATE_HOME");
    let home = get_env("HOME");
    let ghost found = (plugin, xdg, home);
    let candidates = collect_candidates(
        ("HERDR_PLUGIN_STATE_DIR", plugin),
        ("XDG_STATE_HOME", xdg),
        home,
        ".local/state",
        rules,
    );
    let (path, warnings) = resolve_trusted_file_path(candidates, file_name, "state", rules);
    proof {
        let c = state_path_of(
            file_name@,
            found.0.deep_view(),
            found.1.deep_view(),
            found.2.deep_view(),
            rules,
        );
        assert((path.deep_view(), warnings.deep_view()) == c);
    }
    StatePathResolution { path, warnings }
}

/// What reading a state file gave.
#[derive(Debug, PartialEq, Eq)]
pub enum SavedFile<T> {
    Missing,
    Unreadable(String),
    Malformed(String),
    Parsed { version: u32, entries: Vec<T> },
}

/// What is wrong with a state file; `malformed` says how a file of the wrong format is
/// described.
pub open spec fn file_problem<T>(
    file: SavedFile<T>,
    malformed: Seq<char>,
    version: nat,
) -> Option<Seq<char>> {
    match file {
        SavedFile::Missing => None,
        SavedFile::Unreadable(error) => Some("could not be read: "@ + error@),
        SavedFile::Malformed(error) => Some(malformed + error@),
        SavedFile::Parsed { version: found, .. } => if found == version {
            None
        } else {
            Some(
                "uses unsupported version "@ + decimal(found as nat) + " (expected "@ + decimal(
                    version,
                ) + ")"@,
            )
        },
    }
}

/// The entries of a state file that nothing is wrong with.
pub open spec fn usable_entries<T: DeepView>(
    file: SavedFile<T>,
    malformed: Seq<char>,
    version: nat,
) -> Option<Seq<T::V>> {
    match file {
        SavedFile::Parsed { version: found, entries } if found == version => Some(
            entries.deep_view(),
        ),
        _ => None,
    }
}

/// The entries of a state file, or what is wrong with it.
pub fn read_entries<T: DeepView>(file: SavedFile<T>, malformed: &str, version: u32) -> (result: (
    Option<Vec<T>>,
    Option<String>,
))
    ensures
        result.1.deep_view() == file_problem(file, malformed@, version as nat),
        match usable_entries(file, malformed@, version as nat) {
            Some(entries) => result.0 is Some && result.0->0.deep_view() == entries,
            None => result.0 is None,
        },
{
    match file {
        SavedFile::Missing => (None, None),
        SavedFile::Unreadable(error) => (
            None,
            Some(concat("could not be read: ", error.as_str())),
        ),
        SavedFile::Malformed(error) => (None, Some(concat(malformed, error.as_str()))),
        SavedFile::Parsed { version: found, entries } => {
            if found == version {
                (Some(entries), None)
            } else {
                let found_text = decimal_text(found as u64);
                let wanted_text = decimal_text(version as u64);
                let mut message = concat3(
                    "uses unsupported version ",
                    found_text.as_str(),
                    " (expected ",
                );
                message.push_str(wanted_text.as_str());
                message.push_str(")");
                (None, Some(message))
            }
        },
    }
}

/// What became of a state file that could not be used.
#[derive(Debug, PartialEq, Eq)]
pub enum Disposition {
    Quarantined(PathBuf),
    LeftInPlace(String),
}

pub open spec fn disposition_text(disposition: Disposition) -> Seq<char> {
    match disposition {
        Disposition::Quarantined(path) => "quarantined as "@ + lossy_text(path@),
        Disposition::LeftInPlace(error) => "left in place because quarantine failed: "@ + error@,
    }
}

/// The warning about a state file that could not be used.
pub fn invalid_warning(
    path: &PathBuf,
    subject: &str,
    reason: &str,
    disposition: &Disposition,
    consequence: &str,
) -> (warning: ConfigWarning)
    ensures
        warning.message@ == subject@ + " at "@ + lossy_text(path@) + " "@ + reason@ + "; it was "@
            + disposition_text(*disposition) + ", and "@ + consequence@,
{
    let shown = decode_lossy(path.bytes.as_slice());
    let fate = match disposition {
        Disposition::Quarantined(place) => {
            let text = decode_lossy(place.bytes.as_slice());
            concat("quarantined as ", text.as_str())
        },
        Disposition::LeftInPlace(error) => concat(
            "left in place because quarantine failed: ",
            error.as_str(),
        ),
    };
    let mut message = concat3(subject, " at ", shown.as_str());
    message.push_str(" ");
    message.push_str(reason);
    message.push_str("; it was ");
    message.push_str(fate.as_str());
    message.push_str(", and ");
    message.push_str(consequence);
    ConfigWarning { message }
}

/// The name of a file for use in the names of others: `state` where it has no name that is
/// text.
pub open spec fn plain_file_name(path: Seq<u8>, rules: PathRules) -> Seq<char> {
    let all = parts(path, rules);
    if all.len() > 0 && all.last() is Named && valid_utf8(all.last()->Named_0) {
        decode_utf8(all.last()->Named_0)
    } else {
        "state"@
    }
}

fn file_name_text(path: &PathBuf, rules: PathRules) -> (name: String)
    ensures
        name@ == plain_file_name(path@, rules),
{
    match path.file_name(rules) {
        Some(bytes) => match decode(bytes.as_slice()) {
            Some(text) => text,
            None => owned("state"),
        },
        None => owned("state"),
    }
}

/// Whether `sibling` is `path` with its last component replaced by `name`, or `name` added
/// to it where it has no name.
pub open spec fn is_renamed(path: Seq<u8>, name: Seq<char>, sibling: Seq<u8>, rules: PathRules) -> bool {
    let all = parts(path, rules);
    if all.len() > 0 && all.last() is Named {
        exists|end: int|
            #[trigger] is_parent_end(path, end, rules) && sibling == joined_path(
                path.take(end),
                encode_utf8(name),
                rules,
            )
    } else {
        sibling == joined_path(path, encode_utf8(name), rules)
    }
}

/// A hidden file beside a state file.
pub fn sibling_path(path: &PathBuf, suffix: &str, rules: PathRules) -> (sibling: PathBuf)
    ensures
        is_renamed(path@, "."@ + plain_file_name(path@, rules) + "."@ + suffix@, sibling@, rules),
{
    let name = file_name_text(path, rules);
    let mut hidden = concat3(".", name.as_str(), ".");
    hidden.push_str(suffix);
    path.with_file_name(&PathBuf::new(hidden.as_str()), rules)
}

/// Where an attempt to put a state file aside moves it to.
pub fn quarantine_path(path: &PathBuf, process: u64, nonce: &str, attempt: u8, rules: PathRules) -> (place: PathBuf)
    ensures
        is_renamed(
            path@,
            plain_file_name(path@, rules) + ".invalid."@ + decimal(process as nat) + "."@ + nonce@ + "."@
                + decimal(attempt as nat),
            place@,
            rules,
        ),
{
    let name = file_name_text(path, rules);
    let number = decimal_text(process);
    let mut text = concat3(name.as_str(), ".invalid.", number.as_str());
    text.push_str(".");
    text.push_str(nonce);
    text.push_str(".");
    let count = decimal_text(attempt as u64);
    text.push_str(count.as_str());
    path.with_file_name(&PathBuf::new(text.as_str()), rules)
}

} // verus!
