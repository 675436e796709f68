//! Reaching a pane by moving the focus from pane to pane.

use crate::herdr::{HerdrError, HerdrErrorV};
use crate::text::{concat, owned, same_text};
use vstd::prelude::*;
use vstd::string::*;

verus! {

/// Where a pane lies on the screen.
#[derive(Debug, Clone, Copy, PartialEq, Eq, Structural)]
pub struct PaneRect {
    pub x: u16,
    pub y: u16,
    pub width: u16,
    pub height: u16,
}

/// The first position behind a side that starts at `start`, as far as positions go.
pub open spec fn far_edge(start: u16, length: u16) -> int {
    if start + length <= u16::MAX {
        start + length
    } else {
        u16::MAX as int
    }
}

/// The direction from one pane to another: sideways where they stand side by side, else down
/// or up.
pub open spec fn direction_between(source: PaneRect, target: PaneRect) -> Seq<char> {
    if target.x >= far_edge(source.x, source.width) {
        "right"@
    } else if source.x >= far_edge(target.x, target.width) {
        "left"@
    } else if target.y >= far_edge(source.y, source.height) {
        "down"@
    } else {
        "up"@
    }
}

fn edge(start: u16, length: u16) -> (position: u16)
    ensures
        position as int == far_edge(start, length),
{
    if length <= u16::MAX - start {
        start + length
    } else {
        u16::MAX
    }
}

pub fn direction_toward(source: PaneRect, target: PaneRect) -> (direction: &'static str)
    ensures
        direction@ == direction_between(source, target),
{
    if target.x >= edge(source.x, source.width) {
        "right"
    } else if source.x >= edge(target.x, target.width) {
        "left"
    } else if target.y >= edge(source.y, source.height) {
        "down"
    } else {
        "up"
    }
}

/// A pane of a layout.
#[derive(Debug, PartialEq, Eq)]
pub struct LayoutPane {
    pub pane_id: String,
    pub rect: PaneRect,
}

pub struct LayoutPaneV {
    pub pane_id: Seq<char>,
    pub rect: PaneRect,
}

impl DeepView for LayoutPane {
    type V = LayoutPaneV;

    open spec fn deep_view(&self) -> LayoutPaneV {
        LayoutPaneV { pane_id: self.pane_id@, rect: self.rect }
    }
}

/// Where the first pane of that name lies.
pub open spec fn rect_of(panes: Seq<LayoutPaneV>, pane_id: Seq<char>) -> Option<PaneRect>
    decreases panes.len(),
{
    if panes.len() == 0 {
        None
    } else if panes[0].pane_id == pane_id {
        Some(panes[0].rect)
    } else {
        rect_of(panes.drop_first(), pane_id)
    }
}

fn find_rect(panes: &Vec<LayoutPane>, pane_id: &str) -> (rect: Option<PaneRect>)
    ensures
        rect == rect_of(panes.deep_view(), pane_id@),
{
    let ghost all = panes.deep_view();
    let mut i: usize = 0;
    assert(all.skip(0) =~= all);
    while i < panes.len()
        invariant
            i <= panes.len(),
            all == panes.deep_view(),
            rect_of(all, pane_id@) == rect_of(all.skip(i as int), pane_id@),
        decreases panes.len() - i,
    {
        proof {
            assert(all.skip(i as int)[0] == panes@[i as int].deep_view());
            assert(all.skip(i as int).drop_first() =~= all.skip(i + 1));
        }
        if same_text(panes[i].pane_id.as_str(), pane_id) {
            return Some(panes[i].rect);
        }
        i = i + 1;
    }
    assert(all.skip(i as int) =~= Seq::<LayoutPaneV>::empty());
    None
}

/// A walk of the focus to a pane.
#[derive(Debug, PartialEq, Eq)]
pub struct FocusWalk {
    pub target: String,
    pub panes: Vec<LayoutPane>,
    pub focused: String,
    pub moves_left: usize,
}

pub struct FocusWalkV {
    pub target: Seq<char>,
    pub panes: Seq<LayoutPaneV>,
    pub focused: Seq<char>,
    pub moves_left: nat,
}

impl DeepView for FocusWalk {
    type V = FocusWalkV;

    open spec fn deep_view(&self) -> FocusWalkV {
        FocusWalkV {
            target: self.target@,
            panes: self.panes.deep_view(),
            focused: self.focused@,
            moves_left: self.moves_left as nat,
        }
    }
}

/// What to do next.
#[derive(Debug, PartialEq, Eq)]
pub enum FocusStep {
    /// The pane has the focus.
    Arrived,
    Failed(HerdrError),
    /// Move the focus from a pane into a direction.
    Move { direction: &'static str, from: String },
}

pub enum FocusStepV {
    Arrived,
    Failed(HerdrErrorV),
    Move { direction: Seq<char>, from: Seq<char> },
}

impl DeepView for FocusStep {
    type V = FocusStepV;

    open spec fn deep_view(&self) -> FocusStepV {
        match self {
            FocusStep::Arrived => FocusStepV::Arrived,
            FocusStep::Failed(error) => FocusStepV::Failed(error.deep_view()),
            FocusStep::Move { direction, from } => FocusStepV::Move {
                direction: direction@,
                from: from@,
            },
        }
    }
}

impl FocusWalkV {
    pub open spec fn wf(self) -> bool {
        rect_of(self.panes, self.target) is Some
    }

    pub open spec fn step(self) -> FocusStepV {
        if self.moves_left == 0 {
            FocusStepV::Failed(
                HerdrErrorV::InvalidResponse(
                    "directional pane focus could not reach "@ + self.target,
                ),
            )
        } else if self.focused == self.target {
            FocusStepV::Arrived
        } else {
            match rect_of(self.panes, self.focused) {
                None => FocusStepV::Failed(
                    HerdrErrorV::InvalidResponse(
                        "pane layout did not contain focused pane "@ + self.focused,
                    ),
                ),
                Some(rect) => FocusStepV::Move {
                    direction: direction_between(rect, rect_of(self.panes, self.target)->0),
                    from: self.focused,
                },
            }
        }
    }

    /// The walk after a move; it is over where the focus did not change.
    pub open spec fn moved(self, focused: Option<Seq<char>>) -> FocusWalkV {
        match focused {
            Some(pane) if pane != self.focused => FocusWalkV {
                focused: pane,
                moves_left: (self.moves_left - 1) as nat,
                ..self
            },
            _ => FocusWalkV { moves_left: 0, ..self },
        }
    }
}

impl FocusWalk {
    /// A walk to `pane_id` from the pane that has the focus, in at most two moves for each
    /// pane of the layout.
    pub fn start(pane_id: &str, focused: String, panes: Vec<LayoutPane>) -> (result: Result<
        FocusWalk,
        HerdrError,
    >)
        ensures
            match result {
                Ok(walk) => {
                    &&& walk.deep_view().wf()
                    &&& walk.deep_view() == (FocusWalkV {
                        target: pane_id@,
                        panes: panes.deep_view(),
                        focused: focused@,
                        moves_left: if panes@.len() * 2 <= usize::MAX {
                            if panes@.len() == 0 {
                                1
                            } else {
                                panes@.len() * 2
                            }
                        } else {
                            usize::MAX as nat
                        },
                    })
                },
                Err(error) => rect_of(panes.deep_view(), pane_id@) is None && error.deep_view()
                    == HerdrErrorV::InvalidResponse(
                    "pane layout did not contain focus target "@ + pane_id@,
                ),
            },
    {
        if find_rect(&panes, pane_id).is_none() {
            return Err(
                HerdrError::InvalidResponse(
                    concat("pane layout did not contain focus target ", pane_id),
                ),
            );
        }
        let count: usize = panes.len();
        let moves_left: usize = if count > usize::MAX / 2 {
            usize::MAX
        } else if count == 0 {
            1
        } else {
            count * 2
        };
        Ok(FocusWalk { target: pane_id.to_owned(), panes, focused, moves_left })
    }

    pub fn next_step(&self) -> (step: FocusStep)
        requires
            self.deep_view().wf(),
        ensures
            step.deep_view() == self.deep_view().step(),
    {
        if self.moves_left == 0 {
            return FocusStep::Failed(
                HerdrError::InvalidResponse(
                    concat("directional pane focus could not reach ", self.target.as_str()),
                ),
            );
        }
        if same_text(self.focused.as_str(), self.target.as_str()) {
            return FocusStep::Arrived;
        }
        match (
            find_rect(&self.panes, self.focused.as_str()),
            find_rect(&self.panes, self.target.as_str()),
        ) {
            (Some(source), Some(target)) => FocusStep::Move {
                direction: direction_toward(source, target),
                from: self.focused.clone(),
            },
            _ => FocusStep::Failed(
                HerdrError::InvalidResponse(
                    concat("pane layout did not contain focused pane ", self.focused.as_str()),
                ),
            ),
        }
    }

    /// Takes in which pane has the focus after a move.
    pub fn moved(&mut self, focused: Option<String>)
        requires
            old(self).deep_view().wf(),
            old(self).moves_left > 0,
        ensures
            final(self).deep_view().wf(),
            final(self).deep_view() == old(self).deep_view().moved(focused.deep_view()),
            final(self).moves_left < old(self).moves_left,
    {
        match focused {
            Some(pane) => {
                if same_text(pane.as_str(), self.focused.as_str()) {
                    self.moves_left = 0;
                } else {
                    self.focused = pane;
                    self.moves_left = self.moves_left - 1;
                }
            },
            None => {
                self.moves_left = 0;
            },
        }
    }
}

/// Whether a failure says that the client knows only directions to move the focus in.
pub open spec fn needs_direction(error: HerdrErrorV) -> bool {
    match error {
        HerdrErrorV::Invocation(message) => crate::text::occurs(message, "pane focus"@)
            && crate::text::occurs(message, "--direction"@),
        _ => false,
    }
}

pub fn wants_direction(error: &HerdrError) -> (answer: bool)
    ensures
        answer == needs_direction(error.deep_view()),
{
    match error {
        HerdrError::Invocation(message) => crate::text::contains(message.as_str(), "pane focus")
            && crate::text::contains(message.as_str(), "--direction"),
        _ => false,
    }
}

/// The arguments that ask how the panes around a pane lie.
pub fn layout_args(pane_id: &str) -> (args: Vec<String>)
    ensures
        args.deep_view() == seq!["pane"@, "layout"@, "--pane"@, pane_id@],
{
    let args = vec![owned("pane"), owned("layout"), owned("--pane"), owned(pane_id)];
    assert(args.deep_view() =~= seq!["pane"@, "layout"@, "--pane"@, pane_id@]);
    args
}

/// The arguments that bring a tab to the front.
pub fn tab_args(tab_id: &str) -> (args: Vec<String>)
    ensures
        args.deep_view() == seq!["tab"@, "focus"@, tab_id@],
{
    let args = vec![owned("tab"), owned("focus"), owned(tab_id)];
    assert(args.deep_view() =~= seq!["tab"@, "focus"@, tab_id@]);
    args
}

/// The arguments that move the focus from a pane to the next one in a direction.
pub fn move_args(direction: &str, from: &str) -> (args: Vec<String>)
    ensures
        args.deep_view() == seq![
            "pane"@,
            "focus"@,
            "--direction"@,
            direction@,
            "--pane"@,
            from@,
        ],
{
    let args = vec![
        owned("pane"),
        owned("focus"),
        owned("--direction"),
        owned(direction),
        owned("--pane"),
        owned(from),
    ];
    assert(args.deep_view() =~= seq![
        "pane"@,
        "focus"@,
        "--direction"@,
        direction@,
        "--pane"@,
        from@,
    ]);
    args
}

} // verus!
