//! What herdr is asked on its command line.

use crate::config::{direction_name, OnOpenPaneDirection};
use crate::herdr::{pane_split_line, tab_create_line, worktree_create_line, worktree_open_line, PaneSplitRequestV, TabCreateRequestV, WorktreeCreateRequestV, WorktreeOpenTargetV};
use crate::path::{absolute, PathRules};
use crate::text::trimmed;
use vstd::prelude::*;
use vstd::string::*;
use vstd::utf8::{decode_utf8, valid_utf8};

verus! {

/// Whether a line gives a flag with a value.
pub open spec fn gives(line: Seq<Seq<char>>, flag: Seq<char>, value: Seq<char>) -> bool {
    exists|i: int| 0 <= i < line.len() - 1 && #[trigger] line[i] == flag && line[i + 1] == value
}

/// A checkout is opened from the directory, by the path or the branch, that was asked for; it is
/// brought to the front only where that was asked for. Only what is absolute, readable and not
/// blank is asked for.
pub proof fn lemma_opening_line(
    cwd: Seq<u8>,
    target: WorktreeOpenTargetV,
    focus: bool,
    rules: PathRules,
)
    ensures
        worktree_open_line(cwd, target, focus, rules) is Ok <==> {
            &&& absolute(cwd, rules) && valid_utf8(cwd)
            &&& match target {
                WorktreeOpenTargetV::Path(path) => absolute(path, rules) && valid_utf8(path),
                WorktreeOpenTargetV::Branch(branch) => trimmed(branch).len() > 0,
            }
        },
        worktree_open_line(cwd, target, focus, rules) matches Ok(line) ==> {
            &&& line.len() == 7
            &&& line[0] == "worktree"@
            &&& line[1] == "open"@
            &&& gives(line, "--cwd"@, decode_utf8(cwd))
            &&& target matches WorktreeOpenTargetV::Path(path) ==> gives(
                line,
                "--path"@,
                decode_utf8(path),
            )
            &&& target matches WorktreeOpenTargetV::Branch(branch) ==> gives(
                line,
                "--branch"@,
                branch,
            )
            &&& line.last() == if focus {
                "--focus"@
            } else {
                "--no-focus"@
            }
        },
{
    if let Ok(line) = worktree_open_line(cwd, target, focus, rules) {
        assert(line[2] == "--cwd"@);
        assert(line[4] == "--path"@ || line[4] == "--branch"@);
    }
}

/// A checkout is made of the branch that was asked for, from its base and at its path where these
/// were given, and brought to the front only where that was asked for.
pub proof fn lemma_creation_line(request: WorktreeCreateRequestV, rules: PathRules)
    ensures
        worktree_create_line(request, rules) is Ok <==> {
            &&& absolute(request.cwd, rules) && valid_utf8(request.cwd)
            &&& trimmed(request.branch).len() > 0
            &&& request.base matches Some(base) ==> trimmed(base).len() > 0
            &&& request.path matches Some(path) ==> absolute(path, rules) && valid_utf8(path)
        },
        worktree_create_line(request, rules) matches Ok(line) ==> {
            &&& line[0] == "worktree"@
            &&& line[1] == "create"@
            &&& gives(line, "--cwd"@, decode_utf8(request.cwd))
            &&& gives(line, "--branch"@, request.branch)
            &&& request.base matches Some(base) ==> gives(line, "--base"@, base)
            &&& request.path matches Some(path) ==> gives(line, "--path"@, decode_utf8(path))
            &&& line.last() == if request.focus {
                "--focus"@
            } else {
                "--no-focus"@
            }
            &&& request.base is None && request.path is None ==> line.len() == 7
        },
{
    if let Ok(line) = worktree_create_line(request, rules) {
        assert(line[2] == "--cwd"@);
        assert(line[3] == decode_utf8(request.cwd));
        assert(line[4] == "--branch"@);
        assert(line[5] == request.branch);
        if request.base is Some {
            assert(line[6] == "--base"@);
            assert(line[7] == request.base->0);
            if request.path is Some {
                assert(line[8] == "--path"@);
                assert(line[9] == decode_utf8(request.path->0));
            }
        } else if request.path is Some {
            assert(line[6] == "--path"@);
            assert(line[7] == decode_utf8(request.path->0));
        }
    }
}

/// A pane is split off the one that was asked for, in its direction and at its directory; one that
/// was given a ratio only where that lies between nothing and all.
pub proof fn lemma_split_line(
    request: PaneSplitRequestV,
    ratio: Option<Seq<char>>,
    rules: PathRules,
)
    ensures
        pane_split_line(request, ratio, rules) is Ok <==> {
            &&& trimmed(request.pane_id).len() > 0
            &&& absolute(request.cwd, rules) && valid_utf8(request.cwd)
            &&& request.ratio matches Some(wanted) ==> wanted.between_zero_and_one()
        },
        pane_split_line(request, ratio, rules) matches Ok(line) ==> {
            &&& line[0] == "pane"@
            &&& line[1] == "split"@
            &&& line[2] == request.pane_id
            &&& gives(
                line,
                "--direction"@,
                match request.direction {
                    OnOpenPaneDirection::Left => "left"@,
                    OnOpenPaneDirection::Right => "right"@,
                    OnOpenPaneDirection::Up => "up"@,
                    OnOpenPaneDirection::Down => "down"@,
                },
            )
            &&& gives(line, "--cwd"@, decode_utf8(request.cwd))
            &&& ratio matches Some(share) ==> gives(line, "--ratio"@, share)
            &&& line.last() == if request.focus {
                "--focus"@
            } else {
                "--no-focus"@
            }
        },
{
    if let Ok(line) = pane_split_line(request, ratio, rules) {
        assert(line[3] == "--direction"@);
        assert(line[4] == direction_name(request.direction));
        if ratio is Some {
            assert(line[5] == "--ratio"@);
            assert(line[6] == ratio->0);
            assert(line[7] == "--cwd"@);
            assert(line[8] == decode_utf8(request.cwd));
        } else {
            assert(line[5] == "--cwd"@);
            assert(line[6] == decode_utf8(request.cwd));
        }
    }
}

/// A tab is made in the workspace that was asked for, at its directory and with its label where
/// it has one, and never brought to the front.
pub proof fn lemma_tab_line(request: TabCreateRequestV, rules: PathRules)
    ensures
        tab_create_line(request, rules) is Ok <==> {
            &&& trimmed(request.workspace_id).len() > 0
            &&& absolute(request.cwd, rules) && valid_utf8(request.cwd)
            &&& request.label matches Some(label) ==> trimmed(label).len() > 0
        },
        tab_create_line(request, rules) matches Ok(line) ==> {
            &&& line[0] == "tab"@
            &&& line[1] == "create"@
            &&& gives(line, "--workspace"@, request.workspace_id)
            &&& gives(line, "--cwd"@, decode_utf8(request.cwd))
            &&& request.label matches Some(label) ==> gives(line, "--label"@, label)
            &&& line.last() == "--no-focus"@
        },
{
    if let Ok(line) = tab_create_line(request, rules) {
        assert(line[2] == "--workspace"@);
        assert(line[3] == request.workspace_id);
        assert(line[4] == "--cwd"@);
        assert(line[5] == decode_utf8(request.cwd));
        if request.label is Some {
            assert(line[6] == "--label"@);
            assert(line[7] == request.label->0);
        }
    }
}

} // verus!
