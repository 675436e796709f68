//! Opening repositories, folders and branches, and the panes of what was opened.

use crate::config::OnOpenConfigV;
use crate::event::BranchOperationFailureV;
use crate::git::GitError;
use crate::herdr::{HerdrError, HerdrErrorV, OpenedWorktreeV, PaneInfo, PaneInfoV, WorktreeListResponse, WorktreeOpenTargetV};
use crate::laws::texts::{holds, lemma_holds_wider, lemma_joined_holds_all};
use crate::path::{same_place, PathRules};
use crate::spawn::{awaits, branch_creation, branch_opening, combined, folder_opening, is_checked_out, next_step, pane_in, pane_step, pane_warning, past_pane, remote_branch_opening, removal_begun, replies_to, repo_opening, route_step, BranchOpenRoute, BranchOpeningV, CallV, FinishedV, NextV, OperationV, PaneSetupV, RemovalV, Reply};
use crate::text::{decimal, joined};
use vstd::prelude::*;
use vstd::string::*;
use vstd::utf8::encode_utf8;

verus! {

/// The calls that a piece of work makes while replies come in, and how it ended, if it did.
pub open spec fn course(next: NextV, replies: Seq<Reply>) -> (Seq<CallV>, Option<FinishedV>)
    decreases replies.len(),
{
    match next {
        NextV::Done(finished) => (Seq::empty(), Some(finished)),
        NextV::Ask(operation, call) => if replies.len() == 0 {
            (seq![call], None)
        } else {
            let (calls, end) = course(next_step(operation, replies[0]), replies.drop_first());
            (seq![call] + calls, end)
        },
    }
}

/// Every call gets a reply of its kind, as long as there are replies.
pub open spec fn answered(next: NextV, replies: Seq<Reply>) -> bool
    decreases replies.len(),
{
    match next {
        NextV::Done(_) => true,
        NextV::Ask(operation, call) => replies.len() > 0 ==> replies_to(call, replies[0])
            && answered(next_step(operation, replies[0]), replies.drop_first()),
    }
}

/// The calls that open a pane, in their order.
pub open spec fn splits(calls: Seq<CallV>) -> Seq<CallV>
    decreases calls.len(),
{
    if calls.len() == 0 {
        Seq::empty()
    } else if calls[0] is PaneSplit {
        seq![calls[0]] + splits(calls.drop_first())
    } else {
        splits(calls.drop_first())
    }
}

/// The panes that a workspace is to get: each splits the root pane, in the checkout, as it is
/// configured, and without the focus.
pub open spec fn configured(on_open: OnOpenConfigV, opened: OpenedWorktreeV) -> Seq<CallV> {
    Seq::new(
        on_open.panes.len(),
        |i: int|
            CallV::PaneSplit {
                pane_id: opened.root_pane_id,
                direction: on_open.panes[i].direction,
                new_fraction: on_open.panes[i].ratio,
                cwd: encode_utf8(opened.path),
                focus: false,
            },
    )
}

/// Herdr reports a workspace that was not there before: one that it made for a branch, or one
/// that it opened and says was not open already.
pub open spec fn is_new_workspace(
    operation: OperationV,
    received: Reply,
    on_open: OnOpenConfigV,
    opened: OpenedWorktreeV,
    warning: Option<Seq<char>>,
) -> bool {
    match received {
        Reply::WorktreeCreate(Ok(response)) => {
            &&& response.opened.deep_view() == Some(opened)
            &&& response.warning.deep_view() == warning
            &&& match operation {
                OperationV::OpenBranch(opening) => opening.on_open == on_open,
                OperationV::CreateBranch { on_open: wanted, .. } => wanted == on_open,
                _ => false,
            }
        },
        Reply::WorktreeOpen(Ok(response)) => {
            &&& response.opened.deep_view() == Some(opened)
            &&& response.warning.deep_view() == warning
            &&& response.already_open == Some(false)
            &&& match operation {
                OperationV::OpenBranch(opening) => opening.on_open == on_open,
                OperationV::OpenRepo { on_open: wanted } => wanted == on_open,
                _ => false,
            }
        },
        _ => false,
    }
}

proof fn lemma_splits_of_panes(setup: PaneSetupV, opened: OpenedWorktreeV, replies: Seq<Reply>)
    requires
        0 <= setup.index <= setup.on_open.panes.len(),
        setup.root_pane_id == opened.root_pane_id,
        setup.checkout_path == opened.path,
        answered(pane_step(setup), replies),
    ensures
        ({
            let (calls, end) = course(pane_step(setup), replies);
            let wanted = configured(setup.on_open, opened).skip(setup.index);
            &&& splits(calls).len() <= wanted.len()
            &&& splits(calls) == wanted.take(splits(calls).len() as int)
            &&& end matches Some(finished) ==> finished is Opened && splits(calls) == wanted
        }),
    decreases setup.on_open.panes.len() - setup.index,
{
    reveal_with_fuel(course, 3);
    reveal_with_fuel(answered, 3);
    reveal_with_fuel(splits, 3);
    let wanted = configured(setup.on_open, opened).skip(setup.index);
    let (calls, end) = course(pane_step(setup), replies);
    if setup.index < setup.on_open.panes.len() {
        let split = calls[0];
        assert(split == wanted[0]);
        if replies.len() == 0 {
            assert(calls.drop_first() =~= Seq::<CallV>::empty());
            assert(splits(calls) =~= seq![split]);
            assert(splits(calls) =~= wanted.take(1));
        } else {
            let second = next_step(OperationV::SplitPane(setup), replies[0]);
            let later = replies.drop_first();
            assert(calls.drop_first() =~= course(second, later).0);
            if second is Ask && second->Ask_0 is RunPane {
                assert(second->Ask_0 == OperationV::RunPane(setup));
                let ran = course(second, later).0;
                if later.len() == 0 {
                    assert(ran.drop_first() =~= Seq::<CallV>::empty());
                    assert(splits(ran) =~= Seq::empty());
                    assert(splits(calls) =~= wanted.take(1));
                } else {
                    let third = next_step(OperationV::RunPane(setup), later[0]);
                    assert(ran.drop_first() =~= course(third, later.drop_first()).0);
                    assert(exists|next: PaneSetupV|
                        third == #[trigger] pane_step(next) && next.index == setup.index + 1
                            && next.on_open == setup.on_open && next.root_pane_id
                            == setup.root_pane_id && next.checkout_path == setup.checkout_path);
                    let next = choose|next: PaneSetupV|
                        third == #[trigger] pane_step(next) && next.index == setup.index + 1
                            && next.on_open == setup.on_open && next.root_pane_id
                            == setup.root_pane_id && next.checkout_path == setup.checkout_path;
                    lemma_splits_of_panes(next, opened, later.drop_first());
                    lemma_one_more(setup, opened, calls, third, later.drop_first());
                }
            } else {
                assert(exists|next: PaneSetupV|
                    second == #[trigger] pane_step(next) && next.index == setup.index + 1
                        && next.on_open == setup.on_open && next.root_pane_id
                        == setup.root_pane_id && next.checkout_path == setup.checkout_path);
                let next = choose|next: PaneSetupV|
                    second == #[trigger] pane_step(next) && next.index == setup.index + 1
                        && next.on_open == setup.on_open && next.root_pane_id
                        == setup.root_pane_id && next.checkout_path == setup.checkout_path;
                lemma_splits_of_panes(next, opened, later);
                lemma_one_more(setup, opened, calls, second, later);
            }
        }
    } else {
        assert(wanted =~= Seq::empty());
        assert(splits(calls) =~= Seq::empty());
        assert(wanted.take(0) =~= wanted);
    }
}

proof fn lemma_one_more(
    setup: PaneSetupV,
    opened: OpenedWorktreeV,
    calls: Seq<CallV>,
    next: NextV,
    replies: Seq<Reply>,
)
    requires
        0 <= setup.index < setup.on_open.panes.len(),
        calls.len() > 0,
        calls[0] == configured(setup.on_open, opened)[setup.index],
        splits(calls) == seq![calls[0]] + splits(course(next, replies).0),
        ({
            let (later, end) = course(next, replies);
            let wanted = configured(setup.on_open, opened).skip(setup.index + 1);
            &&& splits(later).len() <= wanted.len()
            &&& splits(later) == wanted.take(splits(later).len() as int)
            &&& end matches Some(finished) ==> finished is Opened && splits(later) == wanted
        }),
    ensures
        ({
            let end = course(next, replies).1;
            let wanted = configured(setup.on_open, opened).skip(setup.index);
            &&& splits(calls).len() <= wanted.len()
            &&& splits(calls) == wanted.take(splits(calls).len() as int)
            &&& end matches Some(finished) ==> finished is Opened && splits(calls) == wanted
        }),
{
    let wanted = configured(setup.on_open, opened).skip(setup.index);
    let rest = configured(setup.on_open, opened).skip(setup.index + 1);
    let later = splits(course(next, replies).0);
    assert(wanted =~= seq![calls[0]] + rest);
    assert(splits(calls) =~= wanted.take(splits(calls).len() as int));
}

/// A new workspace gets its panes: while the work goes on the configured panes are opened one
/// after the other, each once and in their order, and it ends as opened only when all of them
/// were tried, whatever herdr replied.
pub proof fn lemma_new_workspace_gets_every_pane(
    operation: OperationV,
    received: Reply,
    on_open: OnOpenConfigV,
    opened: OpenedWorktreeV,
    warning: Option<Seq<char>>,
    replies: Seq<Reply>,
)
    requires
        is_new_workspace(operation, received, on_open, opened, warning),
        answered(next_step(operation, received), replies),
    ensures
        ({
            let (calls, end) = course(next_step(operation, received), replies);
            &&& splits(calls) == configured(on_open, opened).take(splits(calls).len() as int)
            &&& splits(calls).len() <= on_open.panes.len()
            &&& end matches Some(finished) ==> finished is Opened && splits(calls) == configured(
                on_open,
                opened,
            )
            &&& on_open.panes.len() > 0 ==> calls.len() > 0 && calls[0] == configured(
                on_open,
                opened,
            )[0]
        }),
{
    let setup = PaneSetupV {
        on_open,
        index: 0,
        errors: Seq::empty(),
        root_pane_id: opened.root_pane_id,
        checkout_path: opened.path,
        warning,
    };
    assert(next_step(operation, received) == pane_step(setup));
    lemma_splits_of_panes(setup, opened, replies);
    assert(configured(on_open, opened).skip(0) =~= configured(on_open, opened));
}

/// A pane that was opened runs the command that is configured for it, and no other.
pub proof fn lemma_pane_runs_its_command(
    setup: PaneSetupV,
    received: Reply,
    waiting: OperationV,
    run: CallV,
)
    requires
        0 <= setup.index < setup.on_open.panes.len(),
        received is PaneSplit,
        next_step(OperationV::SplitPane(setup), received) == NextV::Ask(waiting, run),
    ensures
        run is PaneRun <==> received->PaneSplit_0 is Ok,
        run is PaneRun ==> run->PaneRun_pane_id == received->PaneSplit_0->Ok_0.pane_id@
            && run->PaneRun_command == setup.on_open.panes[setup.index].command && waiting
            == OperationV::RunPane(setup),
        run is PaneSplit ==> waiting is SplitPane && waiting->SplitPane_0.index == setup.index + 1,
{
}

/// Where herdr opens every pane and starts every command, the calls are the split and the run
/// of each pane in turn, and the workspace's own warning is all that is told.
pub proof fn lemma_panes_are_opened_in_turn(
    operation: OperationV,
    received: Reply,
    on_open: OnOpenConfigV,
    opened: OpenedWorktreeV,
    warning: Option<Seq<char>>,
    replies: Seq<Reply>,
)
    requires
        is_new_workspace(operation, received, on_open, opened, warning),
        replies.len() == 2 * on_open.panes.len(),
        forall|i: int|
            0 <= i < on_open.panes.len() ==> (#[trigger] replies[2 * i]) is PaneSplit
                && replies[2 * i]->PaneSplit_0 is Ok && replies[2 * i + 1] is PaneRun
                && replies[2 * i + 1]->PaneRun_0 is Ok,
    ensures
        ({
            let (calls, end) = course(next_step(operation, received), replies);
            &&& end == Some(FinishedV::Opened { warning })
            &&& calls.len() == 2 * on_open.panes.len()
            &&& forall|i: int|
                0 <= i < on_open.panes.len() ==> (#[trigger] calls[2 * i]) == configured(
                    on_open,
                    opened,
                )[i] && calls[2 * i + 1] == (CallV::PaneRun {
                    pane_id: replies[2 * i]->PaneSplit_0->Ok_0.pane_id@,
                    command: on_open.panes[i].command,
                })
        }),
{
    let setup = PaneSetupV {
        on_open,
        index: 0,
        errors: Seq::empty(),
        root_pane_id: opened.root_pane_id,
        checkout_path: opened.path,
        warning,
    };
    assert(next_step(operation, received) == pane_step(setup));
    lemma_panes_in_turn(setup, opened, replies);
}

proof fn lemma_panes_in_turn(setup: PaneSetupV, opened: OpenedWorktreeV, replies: Seq<Reply>)
    requires
        0 <= setup.index <= setup.on_open.panes.len(),
        setup.errors.len() == 0,
        setup.root_pane_id == opened.root_pane_id,
        setup.checkout_path == opened.path,
        replies.len() == 2 * (setup.on_open.panes.len() - setup.index),
        forall|i: int|
            0 <= i < setup.on_open.panes.len() - setup.index ==> (#[trigger] replies[2 * i])
                is PaneSplit && replies[2 * i]->PaneSplit_0 is Ok && replies[2 * i + 1] is PaneRun
                && replies[2 * i + 1]->PaneRun_0 is Ok,
    ensures
        ({
            let (calls, end) = course(pane_step(setup), replies);
            let panes = setup.on_open.panes;
            &&& end == Some(FinishedV::Opened { warning: setup.warning })
            &&& calls.len() == replies.len()
            &&& forall|i: int|
                0 <= i < panes.len() - setup.index ==> (#[trigger] calls[2 * i]) == configured(
                    setup.on_open,
                    opened,
                )[setup.index + i] && calls[2 * i + 1] == (CallV::PaneRun {
                    pane_id: replies[2 * i]->PaneSplit_0->Ok_0.pane_id@,
                    command: panes[setup.index + i].command,
                })
        }),
    decreases setup.on_open.panes.len() - setup.index,
{
    reveal_with_fuel(course, 3);
    let panes = setup.on_open.panes;
    if setup.index < panes.len() {
        let next = PaneSetupV { index: setup.index + 1, ..setup };
        let later = replies.skip(2);
        let first: int = 0;
        assert(replies[2 * first] is PaneSplit && replies[2 * first + 1] is PaneRun);
        assert(replies.drop_first().drop_first() =~= later);
        assert(replies.drop_first()[0] == replies[1]);
        assert forall|i: int| 0 <= i < panes.len() - next.index implies (#[trigger] later[2 * i])
            is PaneSplit && later[2 * i]->PaneSplit_0 is Ok && later[2 * i + 1] is PaneRun
            && later[2 * i + 1]->PaneRun_0 is Ok by {
            assert(replies[2 * (i + 1)] is PaneSplit);
            assert(later[2 * i] == replies[2 * (i + 1)]);
            assert(later[2 * i + 1] == replies[2 * (i + 1) + 1]);
        }
        lemma_panes_in_turn(next, opened, later);
        let (rest, _) = course(pane_step(next), later);
        let (calls, end) = course(pane_step(setup), replies);
        assert(calls.len() == rest.len() + 2);
        assert(calls.skip(2) =~= rest);
        assert forall|i: int| 0 <= i < panes.len() - setup.index implies (#[trigger] calls[2 * i])
            == configured(setup.on_open, opened)[setup.index + i] && calls[2 * i + 1] == (
        CallV::PaneRun {
            pane_id: replies[2 * i]->PaneSplit_0->Ok_0.pane_id@,
            command: panes[setup.index + i].command,
        }) by {
            if i > 0 {
                let k = i - 1;
                assert(rest[2 * k] == configured(next.on_open, opened)[next.index + k]);
                assert(calls[2 * i] == rest[2 * k]);
                assert(calls[2 * i + 1] == rest[2 * k + 1]);
                assert(later[2 * k] == replies[2 * i]);
            }
        }
    }
}

/// The work goes on behind a pane, with what went wrong with it: at the next pane nothing that
/// went wrong is lost, and at the end all of it is told, behind the workspace's own warning.
pub open spec fn goes_on(setup: PaneSetupV, problem: Option<Seq<char>>, next: NextV) -> bool {
    let problems = match problem {
        Some(problem) => setup.errors.push(problem),
        None => setup.errors,
    };
    if setup.index + 1 < setup.on_open.panes.len() {
        next matches NextV::Ask(OperationV::SplitPane(later), _) && later.errors == problems
            && later.index == setup.index + 1 && later.on_open == setup.on_open && later.warning
            == setup.warning && later.root_pane_id == setup.root_pane_id && later.checkout_path
            == setup.checkout_path
    } else {
        next matches NextV::Done(FinishedV::Opened { warning }) && (warning is None <==>
            problems.len() == 0 && setup.warning is None) && (forall|i: int|
            0 <= i < problems.len() ==> holds(warning->0, #[trigger] problems[i])) && (
        setup.warning is Some ==> warning->0.take(setup.warning->0.len() as int)
            == setup.warning->0)
    }
}

proof fn lemma_problems_are_told(setup: PaneSetupV, problem: Option<Seq<char>>)
    requires
        0 <= setup.index < setup.on_open.panes.len(),
    ensures
        goes_on(setup, problem, pane_step(past_pane(setup, problem))),
{
    let problems = past_pane(setup, problem).errors;
    let none = Seq::<char>::empty();
    if setup.index + 1 >= setup.on_open.panes.len() && problems.len() > 0 {
        let all = joined(problems, "; "@);
        let told = pane_warning(problems)->0;
        let text = combined(setup.warning, Some(told))->0;
        lemma_joined_holds_all(problems, "; "@);
        assert forall|i: int| 0 <= i < problems.len() implies holds(
            text,
            #[trigger] problems[i],
        ) by {
            lemma_holds_wider("on_open: "@, all, none, problems[i]);
            assert("on_open: "@ + all + none =~= told);
            match setup.warning {
                Some(warning) => {
                    lemma_holds_wider(warning + "; "@, told, none, problems[i]);
                    assert(warning + "; "@ + told + none =~= text);
                },
                None => {},
            }
        }
        if setup.warning is Some {
            assert(text.take(setup.warning->0.len() as int) =~= setup.warning->0);
        }
    } else if setup.warning is Some {
        assert(setup.warning->0.take(setup.warning->0.len() as int) =~= setup.warning->0);
    }
}

/// What goes wrong with a pane is told at the end, with the number of the pane and the reason,
/// and the next pane is opened all the same; nothing is told of a pane that was opened and
/// started.
pub proof fn lemma_pane_problems_add_up(setup: PaneSetupV, received: Reply)
    requires
        0 <= setup.index < setup.on_open.panes.len(),
    ensures
        received matches Reply::PaneSplit(Err(error)) ==> goes_on(
            setup,
            Some(
                "pane "@ + decimal((setup.index + 1) as nat) + " split failed: "@
                    + error.deep_view().text(),
            ),
            next_step(OperationV::SplitPane(setup), received),
        ),
        received matches Reply::PaneRun(Err(error)) ==> goes_on(
            setup,
            Some(
                "pane "@ + decimal((setup.index + 1) as nat) + " run failed: "@
                    + error.deep_view().text(),
            ),
            next_step(OperationV::RunPane(setup), received),
        ),
        received matches Reply::PaneRun(Ok(_)) ==> goes_on(
            setup,
            None,
            next_step(OperationV::RunPane(setup), received),
        ),
{
    match received {
        Reply::PaneSplit(Err(error)) => {
            lemma_problems_are_told(
                setup,
                Some(
                    "pane "@ + decimal((setup.index + 1) as nat) + " split failed: "@
                        + error.deep_view().text(),
                ),
            );
        },
        Reply::PaneRun(Err(error)) => {
            lemma_problems_are_told(
                setup,
                Some(
                    "pane "@ + decimal((setup.index + 1) as nat) + " run failed: "@
                        + error.deep_view().text(),
                ),
            );
        },
        Reply::PaneRun(Ok(_)) => {
            lemma_problems_are_told(setup, None);
        },
        _ => {},
    }
}

/// A branch is opened by its name and in its repository: its checkout is opened, or one is made
/// for it from the branch as it is; either way it gets the focus.
pub proof fn lemma_branch_is_asked_for_by_name(opening: BranchOpeningV)
    ensures
        match route_step(opening) {
            NextV::Ask(waiting, call) => {
                &&& waiting == OperationV::OpenBranch(opening)
                &&& opening.route == BranchOpenRoute::Open ==> call == (CallV::WorktreeOpen {
                    cwd: opening.repo_path,
                    target: WorktreeOpenTargetV::Branch(opening.branch_name),
                    focus: true,
                })
                &&& opening.route == BranchOpenRoute::Create ==> (call matches
                    CallV::WorktreeCreate(request) && request.cwd == opening.repo_path
                    && request.branch == opening.branch_name && request.base is None
                    && request.path is None && request.focus)
            },
            NextV::Done(_) => false,
        },
{
}

/// A remote branch is opened by the local branch of its name once that is there, in the same
/// repository and with the same panes; whether it was made for that is remembered.
pub proof fn lemma_tracking_branch_is_opened(
    repo_path: Seq<u8>,
    branch_name: Seq<char>,
    on_open: OnOpenConfigV,
    result: Result<(), GitError>,
)
    ensures
        match next_step(
            OperationV::TrackRemote { repo_path, branch_name, on_open },
            Reply::CreateTrackingBranch(result),
        ) {
            NextV::Ask(OperationV::OpenBranch(opening), CallV::WorktreeCreate(request)) => {
                &&& result is Err ==> result->Err_0 is LocalBranchAlreadyExists
                &&& opening.repo_path == repo_path
                &&& opening.branch_name == branch_name
                &&& opening.on_open == on_open
                &&& opening.tracking_created == Some(result is Ok)
                &&& !opening.retried
                &&& request.cwd == repo_path
                &&& request.branch == branch_name
                &&& request.base is None
                &&& request.focus
            },
            NextV::Done(FinishedV::BranchFailed { repo_path: failed, failure }) => {
                &&& result is Err
                &&& !(result->Err_0 is LocalBranchAlreadyExists)
                &&& failed == repo_path
                &&& failure == BranchOperationFailureV::Failed(
                    result->Err_0.deep_view().text(),
                )
            },
            _ => false,
        },
{
}

/// An attempt to open a branch that failed is tried the other way where herdr says that the
/// branch is checked out by now, or is no longer: for the same branch, repository and panes.
/// Else the failure that came first is told.
pub proof fn lemma_other_way_is_tried_for_the_same_branch(
    opening: BranchOpeningV,
    error: HerdrErrorV,
    result: Result<WorktreeListResponse, HerdrError>,
)
    ensures
        ({
            let next = next_step(
                OperationV::RefreshRoute(opening, error),
                Reply::WorktreeList(result),
            );
            let is_checked_out = result is Ok && exists|i: int|
                0 <= i < result->Ok_0.worktrees@.len() && (
                #[trigger] result->Ok_0.worktrees@[i]).branch.deep_view() == Some(
                    opening.branch_name,
                );
            let other = result is Ok && (is_checked_out <==> opening.route
                == BranchOpenRoute::Create);
            match next {
                NextV::Ask(OperationV::OpenBranch(again), call) => {
                    &&& other
                    &&& again.retried
                    &&& again.route != opening.route
                    &&& again.repo_path == opening.repo_path
                    &&& again.branch_name == opening.branch_name
                    &&& again.on_open == opening.on_open
                    &&& again.tracking_created == opening.tracking_created
                    &&& is_checked_out ==> call is WorktreeOpen
                    &&& !is_checked_out ==> call is WorktreeCreate
                },
                NextV::Done(FinishedV::BranchFailed { repo_path, failure }) => {
                    &&& !other
                    &&& repo_path == opening.repo_path
                    &&& failure == told_failure(opening, error)
                },
                _ => false,
            }
        }),
{
    if result is Ok {
        let listed = result->Ok_0;
        let all = listed.deep_view().worktrees;
        if is_checked_out(all, opening.branch_name) {
            let i = choose|i: int|
                0 <= i < all.len() && (#[trigger] all[i]).branch == Some(opening.branch_name);
            assert(listed.worktrees@[i].branch.deep_view() == Some(opening.branch_name));
        }
        assert forall|i: int|
            0 <= i < listed.worktrees@.len() && (#[trigger] listed.worktrees@[i]).branch.deep_view()
                == Some(opening.branch_name) implies is_checked_out(all, opening.branch_name) by {
            assert(all[i].branch == Some(opening.branch_name));
        }
    }
}

/// The failure that is told of a branch that could not be opened: a branch that was to track a
/// remote one is there all the same, and said to be.
pub open spec fn told_failure(opening: BranchOpeningV, error: HerdrErrorV) -> BranchOperationFailureV {
    let message = if error is WorktreeOperationInProgress {
        "Another worktree operation is already in progress; wait for it to finish and try again."@
    } else {
        error.text()
    };
    match opening.tracking_created {
        Some(tracking_created) => BranchOperationFailureV::LocalBranchAvailable {
            branch_name: opening.branch_name,
            tracking_created,
            message,
        },
        None => BranchOperationFailureV::Failed(message),
    }
}

/// A failure to open a branch ends the work with that failure, unless it says that the other
/// way is the right one and that was not tried yet: the checkouts are listed first.
pub proof fn lemma_branch_failure_is_told(
    opening: BranchOpeningV,
    error: HerdrError,
    received: Reply,
)
    requires
        received == Reply::WorktreeOpen(Err(error)) || received == Reply::WorktreeCreate(
            Err(error),
        ),
    ensures
        match next_step(OperationV::OpenBranch(opening), received) {
            NextV::Ask(waiting, call) => {
                &&& !opening.retried
                &&& waiting == OperationV::RefreshRoute(opening, error.deep_view())
                &&& call == (CallV::WorktreeList { cwd: opening.repo_path })
                &&& opening.route == BranchOpenRoute::Create ==> error is WorktreeCreateFailed
                &&& opening.route == BranchOpenRoute::Open ==> error is WorktreeNotFound
                    || error is WorktreeOpenFailed
            },
            NextV::Done(finished) => finished == (FinishedV::BranchFailed {
                repo_path: opening.repo_path,
                failure: told_failure(opening, error.deep_view()),
            }) && (error is WorktreeNotFound && opening.route == BranchOpenRoute::Open
                ==> opening.retried),
        },
{
}

/// Creating a branch that herdr refuses ends with the refusal, told of the repository.
pub proof fn lemma_refused_branch_is_told(
    repo_path: Seq<u8>,
    on_open: OnOpenConfigV,
    error: HerdrError,
)
    ensures
        match next_step(
            OperationV::CreateBranch { repo_path, on_open },
            Reply::WorktreeCreate(Err(error)),
        ) {
            NextV::Done(FinishedV::BranchFailed { repo_path: told, failure }) => {
                &&& told == repo_path
                &&& failure is Failed
                &&& !(error is WorktreeOperationInProgress) ==> failure
                    == BranchOperationFailureV::Failed(error.deep_view().text())
            },
            _ => false,
        },
{
}

/// Work ends as opened only where herdr has opened or focused something: no refusal of the
/// workspace itself ends so.
pub proof fn lemma_refusals_are_not_openings(operation: OperationV, received: Reply)
    requires
        received matches Reply::WorktreeOpen(Err(_)) || received matches Reply::WorktreeCreate(
            Err(_),
        ) || received matches Reply::WorkspaceFocus(Err(_)) || received matches
            Reply::WorkspaceCreate(Err(_)) || received matches Reply::PaneList(Err(_))
            || received is CreateTrackingBranch || received is WorktreeList,
        awaits(operation, received),
    ensures
        !(next_step(operation, received) matches NextV::Done(FinishedV::Opened { .. })),
        operation is OpenRepo || operation is FindFolder || operation is FocusFolder || operation
            is CreateFolder ==> next_step(operation, received) matches NextV::Done(
            FinishedV::OpenFailed(_),
        ),
{
}

/// A workspace that is open already, or that nothing more is known of, is opened as it is, with
/// what herdr warned of.
pub proof fn lemma_known_workspace_is_opened_as_it_is(operation: OperationV, received: Reply)
    requires
        match received {
            Reply::WorktreeOpen(Ok(response)) => (response.opened is None || response.already_open
                != Some(false)) && (operation is OpenRepo || operation is OpenBranch),
            Reply::WorktreeCreate(Ok(response)) => response.opened is None && (operation
                is OpenBranch || operation is CreateBranch),
            _ => false,
        },
    ensures
        next_step(operation, received) == NextV::Done(
            FinishedV::Opened {
                warning: match received {
                    Reply::WorktreeOpen(Ok(response)) => response.warning.deep_view(),
                    Reply::WorktreeCreate(Ok(response)) => response.warning.deep_view(),
                    _ => None,
                },
            },
        ),
{
}

/// A folder is opened by the workspace of the first pane that stands in it; where there is
/// none, a workspace is made in the folder and gets the focus.
pub proof fn lemma_folder_goes_to_its_workspace(
    target: Seq<u8>,
    path_rules: PathRules,
    panes: Vec<PaneInfo>,
)
    ensures
        ({
            let stands = |i: int|
                0 <= i < panes@.len() && panes@[i].cwd is Some && same_place(
                    encode_utf8(panes@[i].cwd->0@),
                    target,
                    path_rules,
                );
            match next_step(
                OperationV::FindFolder { target, path_rules },
                Reply::PaneList(Ok(panes)),
            ) {
                NextV::Ask(waiting, CallV::WorkspaceFocus { workspace_id }) => waiting
                    == OperationV::FocusFolder && exists|i: int|
                    #[trigger] stands(i) && workspace_id == panes@[i].workspace_id@ && forall|
                        j: int,
                    |
                        0 <= j < i ==> !#[trigger] stands(j),
                NextV::Ask(waiting, CallV::WorkspaceCreate { cwd, focus }) => waiting
                    == OperationV::CreateFolder && cwd == target && focus && forall|i: int|
                    !#[trigger] stands(i),
                _ => false,
            }
        }),
{
    let all = panes.deep_view();
    let stands = |i: int|
        0 <= i < panes@.len() && panes@[i].cwd is Some && same_place(
            encode_utf8(panes@[i].cwd->0@),
            target,
            path_rules,
        );
    lemma_first_pane(all, target, path_rules);
    assert forall|i: int| 0 <= i < all.len() implies #[trigger] stands(i) == (all[i].cwd is Some
        && same_place(encode_utf8(all[i].cwd->0), target, path_rules)) by {
        assert(all[i] == panes@[i].deep_view());
    }
    match pane_in(all, target, path_rules) {
        Some(pane) => {
            let i = choose|i: int|
                0 <= i < all.len() && #[trigger] all[i] == pane && all[i].cwd is Some && same_place(
                    encode_utf8(all[i].cwd->0),
                    target,
                    path_rules,
                ) && forall|j: int|
                    0 <= j < i ==> !((#[trigger] all[j]).cwd is Some && same_place(
                        encode_utf8(all[j].cwd->0),
                        target,
                        path_rules,
                    ));
            assert(stands(i));
            assert(panes@[i].workspace_id@ == all[i].workspace_id);
            assert forall|j: int| 0 <= j < i implies !#[trigger] stands(j) by {
                assert(all[j] == panes@[j].deep_view());
            }
        },
        None => {
            assert forall|i: int| !#[trigger] stands(i) by {
                if 0 <= i < all.len() {
                    assert(all[i] == panes@[i].deep_view());
                }
            }
        },
    }
}

proof fn lemma_first_pane(panes: Seq<PaneInfoV>, target: Seq<u8>, rules: PathRules)
    ensures
        match pane_in(panes, target, rules) {
            Some(pane) => exists|i: int|
                0 <= i < panes.len() && #[trigger] panes[i] == pane && panes[i].cwd is Some
                    && same_place(encode_utf8(panes[i].cwd->0), target, rules) && forall|j: int|
                    0 <= j < i ==> !((#[trigger] panes[j]).cwd is Some && same_place(
                        encode_utf8(panes[j].cwd->0),
                        target,
                        rules,
                    )),
            None => forall|j: int|
                0 <= j < panes.len() ==> !((#[trigger] panes[j]).cwd is Some && same_place(
                    encode_utf8(panes[j].cwd->0),
                    target,
                    rules,
                )),
        },
    decreases panes.len(),
{
    if panes.len() > 0 && !(panes[0].cwd is Some && same_place(
        encode_utf8(panes[0].cwd->0),
        target,
        rules,
    )) {
        let rest = panes.drop_first();
        lemma_first_pane(rest, target, rules);
        match pane_in(rest, target, rules) {
            Some(pane) => {
                let i = choose|i: int|
                    0 <= i < rest.len() && #[trigger] rest[i] == pane && rest[i].cwd is Some
                        && same_place(encode_utf8(rest[i].cwd->0), target, rules) && forall|j: int|
                        0 <= j < i ==> !((#[trigger] rest[j]).cwd is Some && same_place(
                            encode_utf8(rest[j].cwd->0),
                            target,
                            rules,
                        ));
                assert(panes[i + 1] == rest[i]);
                assert forall|j: int| 0 <= j < i + 1 implies !((#[trigger] panes[j]).cwd is Some
                    && same_place(encode_utf8(panes[j].cwd->0), target, rules)) by {
                    if j > 0 {
                        assert(panes[j] == rest[j - 1]);
                    }
                }
            },
            None => {
                assert forall|j: int| 0 <= j < panes.len() implies !((#[trigger] panes[j]).cwd
                    is Some && same_place(encode_utf8(panes[j].cwd->0), target, rules)) by {
                    if j > 0 {
                        assert(panes[j] == rest[j - 1]);
                    }
                }
            },
        }
    } else if panes.len() > 0 {
        assert(panes[0].cwd is Some);
    }
}

/// A repository is opened at its own path, and gets the focus and the configured panes.
pub proof fn lemma_repository_is_opened_at_its_path(repo_path: Seq<u8>, on_open: OnOpenConfigV)
    ensures
        match repo_opening(repo_path, on_open) {
            NextV::Ask(
                OperationV::OpenRepo { on_open: wanted },
                CallV::WorktreeOpen { cwd, target, focus },
            ) => wanted == on_open && cwd == repo_path && target == WorktreeOpenTargetV::Path(
                repo_path,
            ) && focus,
            _ => false,
        },
{
}

/// A folder is looked for among the panes before anything is made for it.
pub proof fn lemma_folder_is_looked_for_first(target: Seq<u8>, path_rules: PathRules)
    ensures
        folder_opening(target, path_rules) == NextV::Ask(
            OperationV::FindFolder { target, path_rules },
            CallV::PaneList,
        ),
{
}

/// A branch with a checkout is opened by it, and one without gets a new one, for that branch in
/// that repository and with the configured panes; no way was tried before.
pub proof fn lemma_branch_is_opened_by_its_checkout(
    repo_path: Seq<u8>,
    branch_name: Seq<char>,
    has_worktree: bool,
    on_open: OnOpenConfigV,
)
    ensures
        match branch_opening(repo_path, branch_name, has_worktree, on_open) {
            NextV::Ask(OperationV::OpenBranch(opening), call) => {
                &&& opening.repo_path == repo_path
                &&& opening.branch_name == branch_name
                &&& opening.on_open == on_open
                &&& !opening.retried
                &&& opening.tracking_created is None
                &&& match call {
                    CallV::WorktreeOpen { cwd, target, focus } => has_worktree && cwd == repo_path
                        && target == WorktreeOpenTargetV::Branch(branch_name) && focus,
                    CallV::WorktreeCreate(request) => !has_worktree && request.cwd == repo_path
                        && request.branch == branch_name && request.base is None && request.path
                        is None && request.focus,
                    _ => false,
                }
            },
            _ => false,
        },
{
}

/// A remote branch gets a local one of its name that tracks it, of the remote that is meant,
/// before it is opened.
pub proof fn lemma_remote_branch_is_tracked_first(
    repo_path: Seq<u8>,
    branch_name: Seq<char>,
    remote: Seq<char>,
    on_open: OnOpenConfigV,
)
    ensures
        match remote_branch_opening(repo_path, branch_name, remote, on_open) {
            NextV::Ask(
                OperationV::TrackRemote { repo_path: of, branch_name: name, on_open: wanted },
                CallV::CreateTrackingBranch { repo_path: at, branch, remote: from },
            ) => of == repo_path && at == repo_path && name == branch_name && branch == branch_name
                && from == remote && wanted == on_open,
            _ => false,
        },
{
}

/// A new branch is made from the base that was chosen, under the name that was typed, and gets
/// the focus and the configured panes.
pub proof fn lemma_new_branch_is_made_from_its_base(
    repo_path: Seq<u8>,
    branch_name: Seq<char>,
    base: Seq<char>,
    on_open: OnOpenConfigV,
)
    ensures
        match branch_creation(repo_path, branch_name, base, on_open) {
            NextV::Ask(
                OperationV::CreateBranch { repo_path: of, on_open: wanted },
                CallV::WorktreeCreate(request),
            ) => of == repo_path && wanted == on_open && request.cwd == repo_path && request.branch
                == branch_name && request.base == Some(base) && request.path is None
                && request.focus,
            _ => false,
        },
{
}

/// A removal begins with a fresh look at what is open, in its own repository; without herdr
/// nothing is removed.
pub proof fn lemma_removal_begins_with_a_look(removal: RemovalV, inside_herdr: bool)
    ensures
        match removal_begun(removal, inside_herdr) {
            NextV::Ask(waiting, call) => inside_herdr && waiting == OperationV::ListCheckouts(
                removal,
            ) && call == (CallV::WorktreeList { cwd: removal.repo_path }),
            NextV::Done(FinishedV::Removal { repo_path, branch_name, worktree_path, outcome }) =>
                !inside_herdr && repo_path == removal.repo_path && branch_name
                == removal.branch_name && worktree_path == removal.worktree_path && outcome
                is Failed,
            _ => false,
        },
{
}

} // verus!
