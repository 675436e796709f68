//! The configuration and its first setup.

use crate::config::{absent_dirs, config_path_of, config_problem, expanded_dirs, first_pane_problem, first_search_dir_problem, missing_dir_message, present_dirs, trusted_file, CandidateV, OnOpenPaneConfigV, SearchDirEntry, APP_NAME, DEFAULT_SEARCH_DEPTH};
use crate::keyboard::{KeyCode, KeyEvent};
use crate::order::{lemma_sorted_contains, not_after};
use crate::path::{absolute, joined_path, PathBuf, PathRules};
use crate::setup::{completions, dir_place, lemma_completions_in_order, normalized, offered, offers, rank_texts, setup_key_done, split_typed, SetupDirV, SetupOutcome, SetupStepV, SetupV};
use crate::text::{begins_with, decimal, lowercase_of, trimmed};
use vstd::prelude::*;
use vstd::string::*;
use vstd::utf8::encode_utf8;

verus! {

/// The search directories are those that are configured, in their order: each at the path that
/// is written, with the home directory in place of a leading tilde, and with the depth that is
/// written, or one level where none is. A tilde without a home directory is an error.
pub proof fn lemma_search_directories_are_as_configured(
    entries: Seq<SearchDirEntry>,
    home: Option<Seq<u8>>,
    rules: PathRules,
)
    ensures
        match expanded_dirs(entries, home, rules) {
            Ok(dirs) => {
                &&& dirs.len() == entries.len()
                &&& forall|i: int|
                    0 <= i < dirs.len() ==> (#[trigger] dirs[i]).1 == (match entries[i] {
                        SearchDirEntry::Rich { depth: Some(depth), .. } => depth,
                        _ => DEFAULT_SEARCH_DEPTH,
                    })
                &&& forall|i: int|
                    0 <= i < dirs.len() ==> is_expanded(
                        written(entries[i]),
                        (#[trigger] dirs[i]).0,
                        home,
                        rules,
                    )
            },
            Err(_) => home is None && exists|i: int|
                0 <= i < entries.len() && (#[trigger] written(entries[i])).len() > 0 && written(
                    entries[i],
                )[0] == '~',
        },
    decreases entries.len(),
{
    if entries.len() > 0 {
        let before = entries.drop_last();
        let last = entries.last();
        lemma_search_directories_are_as_configured(before, home, rules);
        assert forall|i: int| 0 <= i < before.len() implies #[trigger] entries[i] == before[i] by {}
        reveal_strlit("~");
        reveal_strlit("~/");
        reveal_strlit("~\\");
        let path = written(last);
        if begins_with(path, "~/"@) {
            assert(path.take(2)[0] == '~' && path.take(2)[1] == '/');
        }
        if begins_with(path, "~\\"@) {
            assert(path.take(2)[0] == '~' && path.take(2)[1] == '\\');
        }
        if path.len() >= 2 && path[0] == '~' && path[1] == '/' {
            assert(path.take(2) =~= "~/"@);
        }
        if path.len() >= 2 && path[0] == '~' && path[1] == '\\' {
            assert(path.take(2) =~= "~\\"@);
        }
        if path.len() == 1 && path[0] == '~' {
            assert(path =~= "~"@);
        }
        match expanded_dirs(before, home, rules) {
            Err(_) => {
                let i = choose|i: int|
                    0 <= i < before.len() && (#[trigger] written(before[i])).len() > 0 && written(
                        before[i],
                    )[0] == '~';
                assert(written(entries[i]) == written(before[i]));
            },
            Ok(dirs) => {
                match expanded_dirs(entries, home, rules) {
                    Ok(all) => {
                        assert forall|i: int| 0 <= i < dirs.len() implies #[trigger] all[i]
                            == dirs[i] by {}
                    },
                    Err(_) => {
                        assert(written(entries[entries.len() - 1])[0] == '~');
                    },
                }
            },
        }
    }
}

/// The path of a search directory as it is written.
pub open spec fn written(entry: SearchDirEntry) -> Seq<char> {
    match entry {
        SearchDirEntry::Simple(path) => path@,
        SearchDirEntry::Rich { path, .. } => path@,
    }
}

/// Whether a directory is what a written path stands for: itself, or below the home directory
/// where it starts with a tilde.
pub open spec fn is_expanded(
    path: Seq<char>,
    dir: Seq<u8>,
    home: Option<Seq<u8>>,
    rules: PathRules,
) -> bool {
    if path.len() == 1 && path[0] == '~' {
        home == Some(dir)
    } else if path.len() >= 2 && path[0] == '~' && (path[1] == '/' || path[1] == '\\') {
        home is Some && dir == joined_path(home->0, encode_utf8(path.skip(2)), rules)
    } else {
        dir == encode_utf8(path)
    }
}

/// Whether a directory is one of those that are there.
pub open spec fn is_there(
    dirs: Seq<(Seq<u8>, u16)>,
    present: Seq<bool>,
    dir: (Seq<u8>, u16),
) -> bool {
    exists|i: int| 0 <= i < dirs.len() && present[i] && #[trigger] dirs[i] == dir
}

/// Of the search directories exactly those are searched that are there, each with its depth, and
/// each of the others is warned of.
pub proof fn lemma_missing_directories_are_warned_of(
    dirs: Seq<(Seq<u8>, u16)>,
    present: Seq<bool>,
)
    requires
        present.len() >= dirs.len(),
    ensures
        ({
            let found = present_dirs(dirs, present);
            let warnings = absent_dirs(dirs, present);
            &&& found.len() + warnings.len() == dirs.len()
            &&& forall|i: int|
                0 <= i < dirs.len() && present[i] ==> found.contains(#[trigger] dirs[i])
            &&& forall|i: int|
                0 <= i < dirs.len() && !present[i] ==> warnings.contains(
                    missing_dir_message((#[trigger] dirs[i]).0),
                )
            &&& forall|k: int|
                0 <= k < found.len() ==> is_there(dirs, present, #[trigger] found[k])
        }),
    decreases dirs.len(),
{
    if dirs.len() > 0 {
        let before = dirs.drop_last();
        lemma_missing_directories_are_warned_of(before, present);
        let (inner, told) = (present_dirs(before, present), absent_dirs(before, present));
        let (found, warnings) = (present_dirs(dirs, present), absent_dirs(dirs, present));
        assert forall|i: int| 0 <= i < before.len() implies #[trigger] dirs[i] == before[i] by {}
        assert forall|i: int| 0 <= i < dirs.len() && present[i] implies found.contains(
            #[trigger] dirs[i],
        ) by {
            if i < before.len() {
                let k = choose|k: int| 0 <= k < inner.len() && inner[k] == before[i];
                assert(found[k] == dirs[i]);
            } else {
                assert(found[found.len() - 1] == dirs[i]);
            }
        }
        assert forall|i: int| 0 <= i < dirs.len() && !present[i] implies warnings.contains(
            missing_dir_message((#[trigger] dirs[i]).0),
        ) by {
            if i < before.len() {
                let k = choose|k: int|
                    0 <= k < told.len() && told[k] == missing_dir_message(before[i].0);
                assert(warnings[k] == told[k]);
            } else {
                assert(warnings[warnings.len() - 1] == missing_dir_message(dirs[i].0));
            }
        }
        assert forall|k: int| 0 <= k < found.len() implies is_there(
            dirs,
            present,
            #[trigger] found[k],
        ) by {
            if k < inner.len() {
                assert(found[k] == inner[k]);
                assert(is_there(before, present, inner[k]));
                let i = choose|i: int|
                    0 <= i < before.len() && present[i] && #[trigger] before[i] == inner[k];
                assert(dirs[i] == found[k]);
            } else {
                assert(dirs[dirs.len() - 1] == found[k]);
            }
        }
    }
}

/// The file lies below the first candidate that is absolute, and every candidate before it is
/// warned of; where none is absolute there is no file.
pub proof fn lemma_first_absolute_directory_counts(
    candidates: Seq<CandidateV>,
    file_name: Seq<char>,
    kind: Seq<char>,
    rules: PathRules,
)
    ensures
        ({
            let (path, warnings) = trusted_file(candidates, file_name, kind, rules);
            let k = warnings.len() as int;
            &&& k <= candidates.len()
            &&& forall|i: int|
                0 <= i < k ==> !absolute((#[trigger] candidates[i]).base, rules)
            &&& path is None <==> k == candidates.len()
            &&& path matches Some(file) ==> absolute(candidates[k].base, rules) && file == (
            if candidates[k].add_app_dir {
                joined_path(
                    joined_path(candidates[k].base, APP_NAME.spec_bytes(), rules),
                    encode_utf8(file_name),
                    rules,
                )
            } else {
                joined_path(candidates[k].base, encode_utf8(file_name), rules)
            })
        }),
    decreases candidates.len(),
{
    if candidates.len() > 0 && !absolute(candidates[0].base, rules) {
        let rest = candidates.drop_first();
        lemma_first_absolute_directory_counts(rest, file_name, kind, rules);
        let warnings = trusted_file(candidates, file_name, kind, rules).1;
        assert forall|i: int| 0 <= i < warnings.len() implies !absolute(
            (#[trigger] candidates[i]).base,
            rules,
        ) by {
            if i > 0 {
                assert(candidates[i] == rest[i - 1]);
            }
        }
        if warnings.len() < candidates.len() {
            assert(candidates[warnings.len() as int] == rest[warnings.len() - 1]);
        }
    }
}

/// The configuration lies in the directory that herdr gives the plugin; else in a directory of
/// the program below the user's configuration directory, or below `.config` of the home
/// directory. A directory that is not absolute is passed over.
pub proof fn lemma_configuration_is_found_in_order(
    plugin: Option<Seq<char>>,
    xdg: Option<Seq<char>>,
    home: Option<Seq<char>>,
    rules: PathRules,
)
    ensures
        ({
            let path = config_path_of(plugin, xdg, home, rules).0;
            let given = |value: Option<Seq<char>>|
                value is Some && value->0.len() > 0 && absolute(encode_utf8(value->0), rules);
            &&& given(plugin) ==> path == Some(
                joined_path(encode_utf8(plugin->0), encode_utf8("config.toml"@), rules),
            )
            &&& !given(plugin) && given(xdg) ==> path == Some(
                joined_path(
                    joined_path(encode_utf8(xdg->0), APP_NAME.spec_bytes(), rules),
                    encode_utf8("config.toml"@),
                    rules,
                ),
            )
            &&& !given(plugin) && !given(xdg) && (home is None || home->0.len() == 0) ==> path
                is None
        }),
{
    reveal_with_fuel(trusted_file, 4);
}

/// A configuration is good exactly where every search directory has a path and a depth, and every
/// pane has a command and, where it has a ratio, one between none and all.
pub proof fn lemma_good_configurations_are_accepted(
    search_dirs: Seq<SearchDirEntry>,
    panes: Seq<OnOpenPaneConfigV>,
)
    ensures
        config_problem(search_dirs, panes) is None <==> (forall|i: int|
            0 <= i < search_dirs.len() ==> is_good_directory(#[trigger] search_dirs[i])) && (
        forall|i: int|
            0 <= i < panes.len() ==> trimmed((#[trigger] panes[i]).command).len() > 0 && (
            panes[i].ratio matches Some(ratio) ==> 0 < ratio.bits < 0x3f80_0000)),
{
    lemma_directory_problems(search_dirs);
    lemma_pane_problems(panes);
}

pub open spec fn is_good_directory(entry: SearchDirEntry) -> bool {
    trimmed(written(entry)).len() > 0 && !(entry matches SearchDirEntry::Rich {
        depth: Some(depth),
        ..
    } && depth == 0)
}

proof fn lemma_directory_problems(entries: Seq<SearchDirEntry>)
    ensures
        first_search_dir_problem(entries) is None <==> forall|i: int|
            0 <= i < entries.len() ==> is_good_directory(#[trigger] entries[i]),
    decreases entries.len(),
{
    if entries.len() > 0 {
        let before = entries.drop_last();
        lemma_directory_problems(before);
        assert forall|i: int| 0 <= i < before.len() implies #[trigger] entries[i] == before[i] by {}
        if forall|i: int| 0 <= i < entries.len() ==> is_good_directory(#[trigger] entries[i]) {
            assert forall|i: int| 0 <= i < before.len() implies is_good_directory(
                #[trigger] before[i],
            ) by {
                assert(is_good_directory(entries[i]));
            }
            assert(is_good_directory(entries[entries.len() - 1]));
        }
        if first_search_dir_problem(entries) is None {
            assert forall|i: int| 0 <= i < entries.len() implies is_good_directory(
                #[trigger] entries[i],
            ) by {
                if i < before.len() {
                    assert(is_good_directory(before[i]));
                }
            }
        }
    }
}

proof fn lemma_pane_problems(panes: Seq<OnOpenPaneConfigV>)
    ensures
        first_pane_problem(panes) is None <==> forall|i: int|
            0 <= i < panes.len() ==> trimmed((#[trigger] panes[i]).command).len() > 0 && (
            panes[i].ratio matches Some(ratio) ==> 0 < ratio.bits < 0x3f80_0000),
    decreases panes.len(),
{
    if panes.len() > 0 {
        let before = panes.drop_last();
        lemma_pane_problems(before);
        assert forall|i: int| 0 <= i < before.len() implies #[trigger] panes[i] == before[i] by {}
        assert(panes[panes.len() - 1] == panes.last());
        if first_pane_problem(panes) is None {
            assert forall|i: int| 0 <= i < panes.len() implies trimmed(
                (#[trigger] panes[i]).command,
            ).len() > 0 && (panes[i].ratio matches Some(ratio) ==> 0 < ratio.bits < 0x3f80_0000) by {
                if i < before.len() {
                    assert(before[i] == panes[i]);
                }
            }
        } else if first_pane_problem(before) is Some {
            let i = choose|i: int|
                0 <= i < before.len() && !(trimmed((#[trigger] before[i]).command).len() > 0 && (
                before[i].ratio matches Some(ratio) ==> 0 < ratio.bits < 0x3f80_0000));
            assert(panes[i] == before[i]);
        }
    }
}

/// A directory that is typed in the setup is asked a depth for, at the path that was typed
/// without what stands around it; without anything typed the setup goes on to the end, where
/// there is a directory, and asks for one where there is none.
pub proof fn lemma_typed_directory_is_asked_a_depth_for(setup: SetupV)
    ensures
        ({
            let path = normalized(trimmed(setup.input.text));
            match setup.depth_begun() {
                Ok(after) => {
                    &&& after.dirs == setup.dirs
                    &&& path.len() > 0 ==> after.step == (SetupStepV::Depth { path })
                    &&& path.len() == 0 ==> after.step is Confirm && setup.dirs.len() > 0
                },
                Err(_) => path.len() == 0 && setup.dirs.len() == 0,
            }
        }),
{
}

proof fn lemma_dir_place(dirs: Seq<SetupDirV>, path: Seq<char>)
    ensures
        match dir_place(dirs, path) {
            Some(place) => 0 <= place < dirs.len() && dirs[place].path == path,
            None => forall|i: int| 0 <= i < dirs.len() ==> (#[trigger] dirs[i]).path != path,
        },
    decreases dirs.len(),
{
    if dirs.len() > 0 {
        let before = dirs.drop_last();
        lemma_dir_place(before, path);
        assert forall|i: int| 0 <= i < before.len() implies #[trigger] dirs[i] == before[i] by {}
    }
}

/// A directory that was typed, given a depth and a choice of folders is listed with all three; a
/// directory of the same path is replaced, and every other one stays.
pub proof fn lemma_chosen_directory_is_listed(setup: SetupV, path: Seq<char>, depth: u16)
    requires
        setup.step == (SetupStepV::FolderMode { path, depth }),
    ensures
        setup.folder_mode_committed() is Ok,
        ({
            let after = setup.folder_mode_committed()->Ok_0;
            &&& after.step is Directories
            &&& after.input.text.len() == 0
            &&& exists|i: int|
                0 <= i < after.dirs.len() && (#[trigger] after.dirs[i]).path == path
                    && after.dirs[i].depth == depth && after.dirs[i].include_non_git == (
                if setup.folder_mode is AllFolders {
                    Some(true)
                } else {
                    None
                })
            &&& after.dirs.len() == setup.dirs.len() + (if exists|i: int|
                0 <= i < setup.dirs.len() && (#[trigger] setup.dirs[i]).path == path {
                0int
            } else {
                1
            })
            &&& forall|i: int|
                0 <= i < setup.dirs.len() && (#[trigger] setup.dirs[i]).path != path
                    ==> after.dirs[i] == setup.dirs[i]
        }),
{
    lemma_dir_place(setup.dirs, path);
    let after = setup.folder_mode_committed()->Ok_0;
    match dir_place(setup.dirs, path) {
        Some(place) => {
            assert(after.dirs[place].path == path);
            assert(setup.dirs[place].path == path);
        },
        None => {
            assert(after.dirs[setup.dirs.len() as int].path == path);
        },
    }
}

/// A depth is taken where it is a whole number of at least one, for the path that was typed;
/// anything else is an error.
pub proof fn lemma_depth_is_taken_as_typed(setup: SetupV, path: Seq<char>)
    requires
        setup.step == (SetupStepV::Depth { path }),
    ensures
        match setup.depth_committed() {
            Ok(after) => after.dirs == setup.dirs && (after.step matches SetupStepV::FolderMode {
                path: of,
                depth,
            } && of == path && depth > 0 && crate::setup::small_number(setup.input.text) == Some(
                depth,
            )),
            Err(_) => match crate::setup::small_number(setup.input.text) {
                Some(depth) => depth == 0,
                None => true,
            },
        },
{
}

/// Whether a text is one of some names that fit, behind a parent.
pub open spec fn is_offer(
    names: Seq<Seq<char>>,
    parent: Seq<char>,
    fits: spec_fn(Seq<char>) -> bool,
    value: Seq<char>,
) -> bool {
    exists|i: int| 0 <= i < names.len() && fits(names[i]) && value == parent + #[trigger] names[i]
}

/// Whether a name fits the start of one: it starts with it without regard to letter case, and
/// where it is hidden the dot is part of what is typed.
pub open spec fn fits(start: Seq<char>) -> spec_fn(Seq<char>) -> bool {
    |name: Seq<char>|
        begins_with(lowercase_of(name), lowercase_of(start)) && (begins_with(name, "."@)
            ==> begins_with(start, "."@))
}

proof fn lemma_offers(names: Seq<Seq<char>>, parent: Seq<char>, prefix: Seq<char>)
    ensures
        forall|k: int|
            0 <= k < offers(names, parent, prefix).len() ==> is_offer(
                names,
                parent,
                fits(prefix),
                #[trigger] offers(names, parent, prefix)[k],
            ),
        forall|i: int|
            0 <= i < names.len() && fits(prefix)(names[i]) ==> offers(
                names,
                parent,
                prefix,
            ).contains(parent + #[trigger] names[i]),
    decreases names.len(),
{
    if names.len() > 0 {
        let before = names.drop_last();
        let inner = offers(before, parent, prefix);
        let all = offers(names, parent, prefix);
        lemma_offers(before, parent, prefix);
        assert forall|i: int| 0 <= i < before.len() implies #[trigger] names[i] == before[i] by {}
        assert(offered(names.last(), prefix) == fits(prefix)(names.last()));
        assert forall|k: int| 0 <= k < all.len() implies is_offer(
            names,
            parent,
            fits(prefix),
            #[trigger] all[k],
        ) by {
            if k < inner.len() {
                assert(all[k] == inner[k]);
                assert(is_offer(before, parent, fits(prefix), inner[k]));
                let i = choose|i: int|
                    0 <= i < before.len() && fits(prefix)(before[i]) && inner[k] == parent
                        + #[trigger] before[i];
                assert(all[k] == parent + names[i]);
            } else {
                assert(all[k] == parent + names[names.len() - 1]);
            }
        }
        assert forall|i: int|
            0 <= i < names.len() && fits(prefix)(names[i]) implies all.contains(
            parent + #[trigger] names[i],
        ) by {
            if i < before.len() {
                assert(fits(prefix)(before[i]));
                let k = choose|k: int| 0 <= k < inner.len() && inner[k] == parent + before[i];
                assert(all[k] == inner[k]);
            } else {
                assert(all[all.len() - 1] == parent + names[i]);
            }
        }
    }
}

/// What is offered for a typed path are the directories below what is typed so far whose names
/// start as the rest does, without regard to letter case, hidden ones only where their dot is
/// typed; every such one is offered.
pub proof fn lemma_offers_complete_what_is_typed(input: Seq<char>, names: Seq<Seq<char>>)
    ensures
        ({
            let (parent, start) = split_typed(input);
            let values = completions(input, names);
            &&& forall|k: int|
                0 <= k < values.len() ==> is_offer(names, parent, fits(start), #[trigger] values[k])
            &&& forall|i: int|
                0 <= i < names.len() && fits(start)(names[i]) ==> values.contains(
                    parent + #[trigger] names[i],
                )
        }),
{
    let (parent, start) = split_typed(input);
    let found = offers(names, parent, start);
    let values = completions(input, names);
    let le = not_after(rank_texts());
    lemma_offers(names, parent, start);
    let places = lemma_completions_in_order(input, names);
    assert forall|k: int| 0 <= k < values.len() implies is_offer(
        names,
        parent,
        fits(start),
        #[trigger] values[k],
    ) by {
        assert(values[k] == found[places[k]]);
        assert(is_offer(names, parent, fits(start), found[places[k]]));
    }
    assert forall|i: int| 0 <= i < names.len() && fits(start)(names[i]) implies values.contains(
        parent + #[trigger] names[i],
    ) by {
        let k = choose|k: int| 0 <= k < found.len() && found[k] == parent + names[i];
        lemma_sorted_contains(found, le, k);
    }
}

/// The configuration is written only where the user agrees to what the last step shows, and as
/// it is shown there.
pub proof fn lemma_setup_writes_what_was_agreed_to<
    F: Fn(&PathBuf) -> Result<Vec<String>, String>,
>(
    key: KeyEvent,
    before: SetupV,
    after: SetupV,
    outcome: SetupOutcome,
    home: Option<Seq<u8>>,
    read: F,
    rules: PathRules,
)
    requires
        setup_key_done(key, before, after, outcome, home, read, rules),
    ensures
        outcome is Write <==> before.step is Confirm && key.code is Enter,
        outcome is Write ==> after == before,
        outcome is Quit ==> after == before,
        key.code == KeyCode::Char('c') && key.modifiers.control ==> outcome is Quit,
        key.code is Esc && (before.step is Welcome || before.step is Directories
            && before.input.text.len() == 0) ==> outcome is Quit,
{
}

/// Going back in the setup takes back one step, with what was entered there entered again, and
/// keeps the directories that were chosen.
pub proof fn lemma_setup_goes_back_one_step<F: Fn(&PathBuf) -> Result<Vec<String>, String>>(
    key: KeyEvent,
    before: SetupV,
    after: SetupV,
    outcome: SetupOutcome,
    home: Option<Seq<u8>>,
    read: F,
    rules: PathRules,
)
    requires
        setup_key_done(key, before, after, outcome, home, read, rules),
        key.code is Esc,
    ensures
        after.dirs == before.dirs,
        before.step matches SetupStepV::Depth { path } ==> outcome is Continue
            && after.step is Directories && after.input.text == path,
        before.step matches SetupStepV::FolderMode { path, depth } ==> outcome is Continue
            && after.step == (SetupStepV::Depth { path }) && after.input.text == decimal(
            depth as nat,
        ),
        before.step is Confirm ==> outcome is Continue && after.step is Directories
            && after.input.text.len() == 0,
        before.step is Directories && before.input.text.len() > 0 ==> outcome is Continue
            && after.step is Directories && after.input.text.len() == 0,
{
}

/// The directories that were chosen change by the last choice of one, and by its removal with
/// control and `x`, which takes back the last one; by nothing else.
pub proof fn lemma_setup_keeps_its_directories<F: Fn(&PathBuf) -> Result<Vec<String>, String>>(
    key: KeyEvent,
    before: SetupV,
    after: SetupV,
    outcome: SetupOutcome,
    home: Option<Seq<u8>>,
    read: F,
    rules: PathRules,
)
    requires
        setup_key_done(key, before, after, outcome, home, read, rules),
    ensures
        ({
            let chosen = before.step is FolderMode && key.code is Enter;
            let removed = before.step is Directories && key.code == KeyCode::Char('x')
                && key.modifiers.control;
            &&& !chosen && !removed ==> after.dirs == before.dirs
            &&& removed && before.dirs.len() > 0 ==> after.dirs == before.dirs.take(
                before.dirs.len() - 1,
            )
            &&& removed && before.dirs.len() == 0 ==> after.dirs == before.dirs && after.message
                is Some
        }),
{
    if before.dirs.len() > 0 {
        assert(before.dirs.take(before.dirs.len() - 1) =~= before.dirs.drop_last());
    }
}

} // verus!
