//! Keys, what they do, and what is asked for.

use crate::app::{after_action, after_edit, ActionOutcomeV, RunOutcome, SurroundingsV};
use crate::config::keys::{chord_of, mode_of, Command, KeyChord, KeysConfigV};
use crate::effects::{EffectV, FilterRequestV};
use crate::event::{FilterKeyV, FilterTarget};
use crate::input::{Edit, SearchableListV};
use crate::keyboard::{Action, KeyCode, KeyEvent, KeyModifiers};
use crate::keymap::{action_of, key_action};
use crate::laws::lists::highlights;
use crate::screens::branch::BranchContextV;
use crate::screens::new_branch::BaseBranchSelectionV;
use crate::state::{AppStateV, HelpOverlayV, ModeV};
use vstd::prelude::*;
use vstd::string::*;

verus! {

/// What is typed on the screen, without the help.
pub open spec fn screen_query(state: AppStateV) -> Seq<char> {
    match state.mode {
        ModeV::RepoSelect => state.repo_view.list.input.text,
        ModeV::BranchSelect(_) => state.branch_view.list.input.text,
        ModeV::SelectBaseBranch { flow, .. } => flow.list.input.text,
        _ => Seq::empty(),
    }
}

/// Opening does what the screen offers: it opens the repository or the branch, starts the branch
/// that was typed where no branch matches, creates the branch from its base, or agrees to the
/// removal that does not run yet. A screen that waits offers nothing.
pub proof fn lemma_open_does_what_the_screen_offers(state: AppStateV)
    ensures
        ({
            let action = action_of(Command::Open, state);
            &&& state.mode is RepoSelect ==> action == Some(Action::OpenRepo)
            &&& state.mode is BranchSelect && (state.branch_view.list.input.text.len() == 0
                || state.branch_view.list.filtered.len() > 0) ==> action == Some(Action::OpenBranch)
            &&& state.mode is BranchSelect && state.branch_view.list.input.text.len() > 0
                && state.branch_view.list.filtered.len() == 0 ==> action == Some(
                Action::StartNewBranch,
            )
            &&& state.mode is SelectBaseBranch ==> action == Some(Action::CreateNewBranch)
            &&& state.mode matches ModeV::ConfirmWorktreeDelete(flow) ==> action == (
            if flow.target.in_progress {
                None
            } else {
                Some(Action::ConfirmDeleteWorktree)
            })
            &&& state.mode is Loading || state.mode is ValidatingNewBranch ==> action is None
        }),
{
}

/// Going back first takes back what was typed, then the screen: from the branches to the
/// repositories, and from a question to the branches. Clearing does the same, but leaves the
/// picker where nothing is typed among the repositories.
pub proof fn lemma_back_takes_back_one_step(state: AppStateV)
    ensures
        screen_query(state).len() > 0 ==> action_of(Command::Back, state) == Some(
            Action::ClearQuery,
        ) && action_of(Command::Clear, state) == Some(Action::ClearQuery),
        screen_query(state).len() == 0 ==> action_of(Command::Back, state) == (match state.mode {
            ModeV::BranchSelect(_) => Some(Action::BackToRepos),
            ModeV::SelectBaseBranch { .. } => Some(Action::CancelOverlay),
            ModeV::ConfirmWorktreeDelete(_) => Some(Action::CancelOverlay),
            _ => None,
        }) && action_of(Command::Clear, state) == (if state.mode is RepoSelect {
            Some(Action::Quit)
        } else {
            None
        }),
{
}

/// A command does nothing on a screen that it does not belong to: branches are shown for
/// repositories, and created and removed among branches; a notification is only put away where
/// there is one. The others do the same everywhere.
pub proof fn lemma_commands_belong_to_screens(state: AppStateV)
    ensures
        action_of(Command::Noop, state) is None,
        action_of(Command::Quit, state) == Some(Action::Quit),
        action_of(Command::Help, state) == Some(Action::ShowHelp),
        action_of(Command::DismissToast, state) == (if state.toasts.len() > 0 {
            Some(Action::DismissToast)
        } else {
            None
        }),
        action_of(Command::BranchesView, state) == (if state.mode is RepoSelect {
            Some(Action::OpenBranches)
        } else {
            None
        }),
        action_of(Command::NewBranch, state) == (if state.mode is BranchSelect {
            Some(Action::StartNewBranch)
        } else {
            None
        }),
        action_of(Command::Delete, state) == (if state.mode is BranchSelect {
            Some(Action::DeleteWorktree)
        } else {
            None
        }),
        action_of(Command::MoveUp, state) matches Some(Action::MoveSelection(delta)) && delta == -1,
        action_of(Command::MoveDown, state) matches Some(Action::MoveSelection(delta)) && delta
            == 1,
        action_of(Command::Backspace, state) == Some(Action::Backspace),
        action_of(Command::DeleteWord, state) == Some(Action::DeleteWord),
        action_of(Command::CursorLeft, state) == Some(Action::CursorLeft),
        action_of(Command::CursorRight, state) == Some(Action::CursorRight),
{
}

/// Whether a key types a character: one that prints, without a modifier.
pub open spec fn types(chord: KeyChord, character: char) -> bool {
    chord.code == KeyCode::Char(character) && chord.modifiers == KeyModifiers::none_spec() && ' '
        <= character <= '~'
}

/// On a list a key does the command that is bound to it there. One that is bound to nothing
/// types its character; a plain character that would leave the picker is typed as well, once
/// something is typed.
pub proof fn lemma_keys_do_their_commands(event: KeyEvent, state: AppStateV, keys: KeysConfigV)
    requires
        state.help_overlay is None,
        state.toasts.len() == 0,
        state.mode is RepoSelect || state.mode is BranchSelect || state.mode is SelectBaseBranch,
    ensures
        ({
            let chord = chord_of(event);
            let command = keys.command(mode_of(state.mode), chord);
            let plain = chord.modifiers == KeyModifiers::none_spec() && chord.code is Char;
            let action = key_action(event, state, keys);
            &&& command is Some && command != Some(Command::Quit) ==> action == action_of(
                command->0,
                state,
            )
            &&& command == Some(Command::Quit) && !(plain && screen_query(state).len() > 0)
                ==> action == Some(Action::Quit)
            &&& forall|character: char|
                command == Some(Command::Quit) && screen_query(state).len() > 0
                    && #[trigger] types(chord, character) ==> action == Some(
                    Action::Insert(character),
                )
            &&& forall|character: char|
                command is None && #[trigger] types(chord, character) ==> action == Some(
                    Action::Insert(character),
                )
            &&& command is None && (forall|character: char| !#[trigger] types(chord, character))
                ==> action is None
        }),
{
    let chord = chord_of(event);
    if chord.code is Char && chord.modifiers == KeyModifiers::none_spec() {
        let character = chord.code->Char_0;
        assert(types(chord, character) == (' ' <= character <= '~'));
    }
}

/// In the help a key acts on the help alone: it closes it, moves and searches in it, and never
/// leaves the picker or does anything on the screen below.
pub proof fn lemma_help_keys_stay_in_the_help(event: KeyEvent, state: AppStateV, keys: KeysConfigV)
    requires
        state.help_overlay is Some,
    ensures
        ({
            let chord = chord_of(event);
            let action = key_action(event, state, keys);
            &&& action matches Some(done) ==> done is CloseHelp || done is MoveSelection || done
                is Insert || done is Backspace || done is DeleteWord || done is CursorLeft || done
                is CursorRight || done is ClearQuery
            &&& chord == (KeyChord { code: KeyCode::Esc, modifiers: KeyModifiers::none_spec() })
                ==> action == Some(Action::CloseHelp)
            &&& action == Some(Action::CloseHelp) ==> chord == (KeyChord {
                code: KeyCode::Esc,
                modifiers: KeyModifiers::none_spec(),
            })
            &&& forall|character: char|
                keys.command(mode_of(state.mode), chord) is None && #[trigger] types(
                    chord,
                    character,
                ) ==> action == Some(Action::Insert(character))
        }),
{
    let chord = chord_of(event);
    if chord.code is Char && chord.modifiers == KeyModifiers::none_spec() {
        let character = chord.code->Char_0;
        assert(types(chord, character) == (' ' <= character <= '~'));
    }
}

/// The list that keys act on: that of the help where it is open, else that of the screen.
pub open spec fn list_in_use(state: AppStateV) -> Option<SearchableListV> {
    match state.help_overlay {
        Some(help) => Some(help.list),
        None => match state.mode {
            ModeV::RepoSelect => Some(state.repo_view.list),
            ModeV::BranchSelect(_) => Some(state.branch_view.list),
            ModeV::SelectBaseBranch { flow, .. } => Some(flow.list),
            _ => None,
        },
    }
}

/// Moving moves the selection of the list in use, and nothing else: no rows, no text, and
/// nothing is asked for.
pub proof fn lemma_moving_moves_the_list_in_use(
    delta: i32,
    state: AppStateV,
    keys: KeysConfigV,
    around: SurroundingsV,
)
    requires
        list_in_use(state) is Some,
    ensures
        ({
            let (after, outcome) = after_action(Action::MoveSelection(delta), state, keys, around);
            &&& outcome.outcome is None
            &&& outcome.effects.len() == 0
            &&& list_in_use(after) == Some(list_in_use(state)->0.moved(delta as int))
            &&& after.repo_view.entries == state.repo_view.entries
            &&& after.branch_view.entries == state.branch_view.entries
            &&& after.toasts == state.toasts
            &&& after.delete == state.delete
            &&& state.help_overlay is Some ==> after.repo_view == state.repo_view
                && after.branch_view == state.branch_view && after.mode == state.mode
            &&& state.help_overlay is None && state.mode is RepoSelect ==> after.branch_view
                == state.branch_view && after.repo_view.selection_touched
            &&& state.help_overlay is None && state.mode is BranchSelect ==> after.repo_view
                == state.repo_view && after.mode == state.mode
        }),
{
}

/// Whether an action did what an edit does, and asked for what it asks for.
pub open spec fn is_edit(
    done: (AppStateV, ActionOutcomeV),
    edited: (AppStateV, Option<FilterRequestV>),
) -> bool {
    &&& done.0 == edited.0
    &&& done.1.outcome is None
    &&& edited.1 is None ==> done.1.effects.len() == 0
    &&& edited.1 matches Some(request) ==> done.1.effects == seq![EffectV::Filter(request)]
}

/// An edit in the help changes what is typed there, and nothing below it; where something is
/// typed by then the filter is asked about exactly that.
pub proof fn lemma_edits_in_the_help(state: AppStateV, change: Edit, help: HelpOverlayV)
    requires
        state.help_overlay == Some(help),
    ensures
        ({
            let (after, request) = after_edit(state, change);
            let typed = help.list.input.edited(change);
            &&& after.help_overlay matches Some(searched) && searched.list.input == typed
                && searched.rows == help.rows
            &&& after.repo_view == state.repo_view
            &&& after.branch_view == state.branch_view
            &&& after.mode == state.mode
            &&& request is Some <==> typed.text.len() > 0
            &&& request matches Some(asked) ==> asked.query == typed.text && asked.target
                == FilterTarget::Help && asked.generation == after.help_filter_generation
                && asked.items.len() == help.rows.len() && forall|i: int|
                0 <= i < help.rows.len() ==> (#[trigger] asked.items[i]).key == FilterKeyV::Help(
                    i as usize,
                )
        }),
{
}

/// An edit among the repositories changes what is typed there, and neither the branches nor
/// anything that was asked about them; the filter is asked where something is typed by then.
pub proof fn lemma_edits_among_repositories(state: AppStateV, change: Edit)
    requires
        state.help_overlay is None,
        state.mode is RepoSelect,
    ensures
        ({
            let (after, request) = after_edit(state, change);
            let typed = state.repo_view.list.input.edited(change);
            &&& after.repo_view.list.input == typed
            &&& after.repo_view.selection_touched
            &&& after.branch_view == state.branch_view
            &&& after.mode == state.mode
            &&& after.delete == state.delete
            &&& request is Some <==> typed.text.len() > 0
            &&& request matches Some(asked) ==> asked.query == typed.text && asked.target
                == FilterTarget::Repos
        }),
{
}

/// An edit among the branches changes what is typed there, and nothing of the repositories; the
/// filter is asked where something is typed by then.
pub proof fn lemma_edits_among_branches(state: AppStateV, change: Edit)
    requires
        state.help_overlay is None,
        state.mode is BranchSelect,
    ensures
        ({
            let (after, request) = after_edit(state, change);
            let typed = state.branch_view.list.input.edited(change);
            &&& after.branch_view.list.input == typed
            &&& after.branch_view.entries == state.branch_view.entries
            &&& after.repo_view == state.repo_view
            &&& after.mode == state.mode
            &&& request is Some <==> typed.text.len() > 0
            &&& request matches Some(asked) ==> asked.query == typed.text && asked.target
                == FilterTarget::Branches
        }),
{
}

/// An edit among the bases changes what is typed there, and neither the branches nor the
/// repositories; the filter is asked where something is typed by then.
pub proof fn lemma_edits_among_bases(
    state: AppStateV,
    change: Edit,
    context: BranchContextV,
    flow: BaseBranchSelectionV,
)
    requires
        state.help_overlay is None,
        state.mode == (ModeV::SelectBaseBranch { context, flow }),
    ensures
        ({
            let (after, request) = after_edit(state, change);
            let typed = flow.list.input.edited(change);
            &&& after.mode matches ModeV::SelectBaseBranch { context: of, flow: searched } && of
                == context && searched.list.input == typed && searched.bases == flow.bases
                && searched.new_name == flow.new_name
            &&& after.repo_view == state.repo_view
            &&& after.branch_view == state.branch_view
            &&& request is Some <==> typed.text.len() > 0
            &&& request matches Some(asked) ==> asked.query == typed.text && asked.target
                == FilterTarget::Bases
        }),
{
}

/// Typing a character is an edit, and asks for what the edit asks for.
pub proof fn lemma_typing_is_an_edit(
    character: char,
    state: AppStateV,
    keys: KeysConfigV,
    around: SurroundingsV,
)
    ensures
        is_edit(after_action(Action::Insert(character), state, keys, around), after_edit(state, Edit::Insert(character))),
{
}

/// Taking a character back is an edit.
pub proof fn lemma_backspace_is_an_edit(
    state: AppStateV,
    keys: KeysConfigV,
    around: SurroundingsV,
)
    ensures
        is_edit(after_action(Action::Backspace, state, keys, around), after_edit(state, Edit::Backspace)),
{
}

/// Taking a word back is an edit.
pub proof fn lemma_deleting_a_word_is_an_edit(
    state: AppStateV,
    keys: KeysConfigV,
    around: SurroundingsV,
)
    ensures
        is_edit(after_action(Action::DeleteWord, state, keys, around), after_edit(state, Edit::DeleteWord)),
{
}

/// Clearing is an edit.
pub proof fn lemma_clearing_is_an_edit(
    state: AppStateV,
    keys: KeysConfigV,
    around: SurroundingsV,
)
    ensures
        is_edit(after_action(Action::ClearQuery, state, keys, around), after_edit(state, Edit::Clear)),
{
}

/// Leaving leaves, and changes nothing.
pub proof fn lemma_leaving_leaves(
    state: AppStateV,
    keys: KeysConfigV,
    around: SurroundingsV,
)
    ensures
        ({
            let (after, outcome) = after_action(Action::Quit, state, keys, around);
            after == state && outcome.outcome == Some(RunOutcome::Quit) && outcome.effects.len()
                == 0
        }),
{
}

/// Putting a notification away takes the oldest one and nothing else.
pub proof fn lemma_oldest_notification_goes_first(
    state: AppStateV,
    keys: KeysConfigV,
    around: SurroundingsV,
)
    ensures
        ({
            let (after, outcome) = after_action(Action::DismissToast, state, keys, around);
            after == (AppStateV { toasts: after.toasts, ..state }) && outcome.effects.len() == 0
                && (state.toasts.len() > 0 ==> after.toasts.len() == state.toasts.len() - 1
                && forall|i: int|
                0 <= i < after.toasts.len() ==> #[trigger] after.toasts[i] == state.toasts[i + 1])
        }),
{
}

/// The help closes without a change of the screen below.
pub proof fn lemma_help_closes(
    state: AppStateV,
    keys: KeysConfigV,
    around: SurroundingsV,
)
    ensures
        ({
            let (after, outcome) = after_action(Action::CloseHelp, state, keys, around);
            after == (AppStateV { help_overlay: None, ..state }) && outcome.effects.len() == 0
        }),
{
}

/// The help opens with nothing searched for, and without a change of the screen below.
pub proof fn lemma_help_opens(
    state: AppStateV,
    keys: KeysConfigV,
    around: SurroundingsV,
)
    ensures
        ({
            let (after, outcome) = after_action(Action::ShowHelp, state, keys, around);
            after.help_overlay is Some && after.help_overlay->0.list.input.text.len() == 0 && after
                == (AppStateV {
                help_overlay: after.help_overlay,
                help_filter_generation: after.help_filter_generation,
                ..state
            }) && outcome.effects.len() == 0
        }),
{
}

/// The cursor moves left in the text of the list in use; the text, the rows and everything else
/// stay.
pub proof fn lemma_cursor_moves_left(
    state: AppStateV,
    keys: KeysConfigV,
    around: SurroundingsV,
)
    requires
        list_in_use(state) is Some,
    ensures
        ({
            let (after, outcome) = after_action(Action::CursorLeft, state, keys, around);
            let list = list_in_use(state)->0;
            &&& outcome.effects.len() == 0
            &&& list_in_use(after) == Some(SearchableListV { input: list.input.moved_left(), ..list })
            &&& after.repo_view.entries == state.repo_view.entries
            &&& after.branch_view.entries == state.branch_view.entries
        }),
{
}

/// The cursor moves right in the text of the list in use; the text, the rows and everything
/// else stay.
pub proof fn lemma_cursor_moves_right(
    state: AppStateV,
    keys: KeysConfigV,
    around: SurroundingsV,
)
    requires
        list_in_use(state) is Some,
    ensures
        ({
            let (after, outcome) = after_action(Action::CursorRight, state, keys, around);
            let list = list_in_use(state)->0;
            &&& outcome.effects.len() == 0
            &&& list_in_use(after) == Some(SearchableListV { input: list.input.moved_right(), ..list })
            &&& after.repo_view.entries == state.repo_view.entries
            &&& after.branch_view.entries == state.branch_view.entries
        }),
{
}

/// Opening on the branches opens the highlighted branch, whatever was searched for.
pub proof fn lemma_action_opens_the_highlighted_branch(
    state: AppStateV,
    keys: KeysConfigV,
    around: SurroundingsV,
    item: int,
)
    requires
        around.inside_herdr,
        state.mode is BranchSelect,
        0 <= item < state.branch_view.entries.len(),
        highlights(state.branch_view.list, item),
    ensures
        ({
            let effects = after_action(Action::OpenBranch, state, keys, around).1.effects;
            let branch = state.branch_view.entries[item];
            &&& effects.len() == 1
            &&& match effects[0] {
                EffectV::OpenBranch { repo_path, branch_name, has_worktree } => branch.remote
                    is None && branch_name == branch.name && has_worktree == branch.worktree_path
                    is Some && repo_path == state.mode->BranchSelect_0.repo_path,
                EffectV::OpenRemoteBranch { repo_path, branch_name, remote } => branch.remote
                    == Some(remote) && branch_name == branch.name && repo_path
                    == state.mode->BranchSelect_0.repo_path,
                _ => false,
            }
        }),
{
}

/// Opening on the repositories opens the highlighted one, whatever was searched for.
pub proof fn lemma_action_opens_the_highlighted_repository(
    state: AppStateV,
    keys: KeysConfigV,
    around: SurroundingsV,
    item: int,
)
    requires
        around.inside_herdr,
        0 <= item < state.repo_view.entries.len(),
        highlights(state.repo_view.list, item),
    ensures
        ({
            let effects = after_action(Action::OpenRepo, state, keys, around).1.effects;
            let repo = state.repo_view.entries[item].repo;
            &&& effects.len() == 1
            &&& effects[0] == (if repo.is_git {
                EffectV::OpenRepo { repo_path: repo.path }
            } else {
                EffectV::OpenFolder { path: repo.path }
            })
        }),
{
}

/// Going back to the repositories shows them; what was found of remotes is given up, and no
/// repository is lost.
pub proof fn lemma_back_to_the_repositories(
    state: AppStateV,
    keys: KeysConfigV,
    around: SurroundingsV,
)
    ensures
        ({
            let (after, outcome) = after_action(Action::BackToRepos, state, keys, around);
            &&& after.mode == ModeV::RepoSelect
            &&& after.branch_view.remote_branches.len() == 0
            &&& after.branch_view.fetching_remote_repo is None
            &&& after.branch_view.entries == state.branch_view.entries
            &&& after.repo_view.list.input == state.repo_view.list.input
            &&& after.delete == state.delete
            &&& after.toasts == state.toasts
            &&& outcome.outcome is None
        }),
{
}

} // verus!
