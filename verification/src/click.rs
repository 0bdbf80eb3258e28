//! One attempt to find the widget of a page and click it.

use crate::dom::{challenge_target, find_challenge_target, ChallengeTarget, Node};
use rand::Rng;
use vstd::prelude::*;

verus! {

/// How deep the document tree is read: to the bottom.
pub const DOCUMENT_DEPTH: i64 = -1;

/// The fewest points of the path of the pointer.
pub const PATH_POINTS_MIN: u64 = 12;

/// The path of the pointer has fewer points than this.
pub const PATH_POINTS_END: u64 = 22;

/// The longest pause at a point of the path.
pub const POINT_PAUSE_MAX_MS: u64 = 80;

/// The shortest pause before the click.
pub const CLICK_PAUSE_MIN_MS: u64 = 40;

/// The pause before the click is shorter than this.
pub const CLICK_PAUSE_END_MS: u64 = 120;

/// A box is four corners, so it takes at least this many coordinates.
pub const BOX_COORDINATES: usize = 8;

/// Where in the box of an element to click.
#[derive(Debug, Clone, Copy, PartialEq, Eq, Structural)]
pub enum ChallengeClickMode {
    /// In the middle: the box is that of the checkbox.
    ElementCenter,
    /// Near the left edge, where the checkbox is drawn: the box is that of the
    /// iframe.
    IframeCheckboxRegion,
}

/// What an attempt has come to.
#[derive(Debug, Clone, Copy, PartialEq, Eq, Structural)]
pub enum ClickPhase {
    /// The document tree is to be read.
    Document,
    /// The box of the checkbox is to be read.
    CheckboxBox,
    /// The box of the iframe is to be read.
    IframeBox,
    /// It is to be seen whether the box has an area.
    Measure,
    /// The path of the pointer is to be laid.
    Plan,
    /// The pointer is to be moved to the next point.
    Move,
    /// The pause at a point.
    PointPause,
    /// The pause before the click.
    ClickPause,
    /// The click is to be made.
    Press,
    /// The attempt is over: whether the widget was clicked.
    Done(bool),
}

/// An attempt to click the widget.
#[derive(Debug)]
pub struct ClickAttempt {
    /// How many points the path of the pointer has.
    pub steps: u8,
    /// How long to pause before the click.
    pub click_pause_ms: u64,
    pub phase: ClickPhase,
    pub target: Option<ChallengeTarget>,
    pub mode: ChallengeClickMode,
    /// How long to pause at each point of the path, before it is capped.
    pub path: Vec<u64>,
    /// How many points of the path have been reached.
    pub reached: usize,
}

/// What an attempt asks for.
#[derive(Debug, Clone, Copy, PartialEq, Eq, Structural)]
pub enum ClickAction {
    /// Read the document tree to the given depth, through closed shadow roots
    /// too where asked to pierce them.
    GetDocument { depth: i64, pierce: bool },
    /// Read the content box of the node.
    GetBoxModel(i64),
    /// Tell whether the box that was read has an area to click on.
    Measure,
    /// Lay a path of so many points to the place in the box that was read.
    PlanPath { mode: ChallengeClickMode, points: u8 },
    /// Move the pointer to the point of the path.
    MoveTo(usize),
    /// Sleep for so many milliseconds.
    Sleep(u64),
    /// Click at the end of the path.
    Click,
    /// Nothing more: the attempt is over, and whether the widget was clicked.
    Return(bool),
}

/// What an attempt is told.
#[derive(Debug)]
pub enum ClickEvent {
    /// The root of the document tree, where it could be read.
    Document(Option<Node>),
    /// How many coordinates the box has, where it could be read.
    BoxModel(Option<usize>),
    /// Whether the box has an area to click on.
    Area(bool),
    /// How long to pause at each point of the path that was laid.
    Path(Vec<u64>),
    /// Whether the pointer was moved.
    Moved(bool),
    /// The sleep is over.
    Slept,
    /// Whether the click was made.
    Clicked(bool),
}

/// An attempt that has just begun.
pub open spec fn fresh_attempt(attempt: ClickAttempt, steps: u8, click_pause_ms: u64) -> bool {
    &&& attempt.steps == steps
    &&& attempt.click_pause_ms == click_pause_ms
    &&& attempt.phase == ClickPhase::Document
    &&& attempt.target is None
    &&& attempt.mode == ChallengeClickMode::IframeCheckboxRegion
    &&& attempt.path@ == Seq::<u64>::empty()
    &&& attempt.reached == 0
}

/// The pause at a point, capped.
pub open spec fn point_pause(ms: u64) -> u64 {
    if ms <= POINT_PAUSE_MAX_MS {
        ms
    } else {
        POINT_PAUSE_MAX_MS
    }
}

/// The node whose box is read first: the checkbox where there is one.
pub open spec fn preferred_node(target: ChallengeTarget) -> i64 {
    match target.checkbox_node_id {
        Some(id) => id,
        None => target.iframe_node_id,
    }
}

/// What an attempt asks for in a state.
pub open spec fn click_pending(attempt: ClickAttempt) -> ClickAction {
    match attempt.phase {
        ClickPhase::Document => ClickAction::GetDocument { depth: DOCUMENT_DEPTH, pierce: true },
        ClickPhase::CheckboxBox => match attempt.target {
            Some(target) => ClickAction::GetBoxModel(preferred_node(target)),
            None => ClickAction::Return(false),
        },
        ClickPhase::IframeBox => match attempt.target {
            Some(target) => ClickAction::GetBoxModel(target.iframe_node_id),
            None => ClickAction::Return(false),
        },
        ClickPhase::Measure => ClickAction::Measure,
        ClickPhase::Plan => ClickAction::PlanPath { mode: attempt.mode, points: attempt.steps },
        ClickPhase::Move => ClickAction::MoveTo(attempt.reached),
        ClickPhase::PointPause => if attempt.reached < attempt.path@.len() {
            ClickAction::Sleep(point_pause(attempt.path@[attempt.reached as int]))
        } else {
            ClickAction::Sleep(0)
        },
        ClickPhase::ClickPause => ClickAction::Sleep(attempt.click_pause_ms),
        ClickPhase::Press => ClickAction::Click,
        ClickPhase::Done(clicked) => ClickAction::Return(clicked),
    }
}

/// Where an attempt goes once a box was read.
pub open spec fn after_box(coordinates: usize) -> ClickPhase {
    if coordinates < BOX_COORDINATES {
        ClickPhase::Done(false)
    } else {
        ClickPhase::Measure
    }
}

/// The state after an event. An event that answers nothing asked changes
/// nothing, and neither does a path that has not as many points as asked for.
pub open spec fn click_next(attempt: ClickAttempt, event: ClickEvent) -> ClickAttempt {
    match (attempt.phase, event) {
        (ClickPhase::Document, ClickEvent::Document(root)) => {
            let target = match root {
                Some(node) => challenge_target(node),
                None => None,
            };
            match target {
                None => ClickAttempt { phase: ClickPhase::Done(false), ..attempt },
                Some(t) => if t.checkbox_node_id is Some {
                    ClickAttempt {
                        phase: ClickPhase::CheckboxBox,
                        target,
                        mode: ChallengeClickMode::ElementCenter,
                        ..attempt
                    }
                } else {
                    ClickAttempt {
                        phase: ClickPhase::IframeBox,
                        target,
                        mode: ChallengeClickMode::IframeCheckboxRegion,
                        ..attempt
                    }
                },
            }
        },
        (ClickPhase::CheckboxBox, ClickEvent::BoxModel(reply)) => match reply {
            Some(coordinates) => ClickAttempt { phase: after_box(coordinates), ..attempt },
            None => ClickAttempt {
                phase: ClickPhase::IframeBox,
                mode: ChallengeClickMode::IframeCheckboxRegion,
                ..attempt
            },
        },
        (ClickPhase::IframeBox, ClickEvent::BoxModel(reply)) => match reply {
            Some(coordinates) => ClickAttempt { phase: after_box(coordinates), ..attempt },
            None => ClickAttempt { phase: ClickPhase::Done(false), ..attempt },
        },
        (ClickPhase::Measure, ClickEvent::Area(clickable)) => ClickAttempt {
            phase: if clickable {
                ClickPhase::Plan
            } else {
                ClickPhase::Done(false)
            },
            ..attempt
        },
        (ClickPhase::Plan, ClickEvent::Path(path)) => if path@.len() == attempt.steps {
            ClickAttempt {
                phase: if attempt.reached < attempt.steps {
                    ClickPhase::Move
                } else {
                    ClickPhase::ClickPause
                },
                path,
                ..attempt
            }
        } else {
            attempt
        },
        (ClickPhase::Move, ClickEvent::Moved(moved)) => ClickAttempt {
            phase: if moved {
                ClickPhase::PointPause
            } else {
                ClickPhase::Done(false)
            },
            ..attempt
        },
        (ClickPhase::PointPause, ClickEvent::Slept) => if attempt.reached + 1 < attempt.steps {
            ClickAttempt {
                phase: ClickPhase::Move,
                reached: (attempt.reached + 1) as usize,
                ..attempt
            }
        } else {
            ClickAttempt {
                phase: ClickPhase::ClickPause,
                reached: attempt.steps as usize,
                ..attempt
            }
        },
        (ClickPhase::ClickPause, ClickEvent::Slept) => ClickAttempt {
            phase: ClickPhase::Press,
            ..attempt
        },
        (ClickPhase::Press, ClickEvent::Clicked(clicked)) => ClickAttempt {
            phase: ClickPhase::Done(clicked),
            ..attempt
        },
        _ => attempt,
    }
}

/// The state after a sequence of events.
pub open spec fn click_run(attempt: ClickAttempt, events: Seq<ClickEvent>) -> ClickAttempt
    decreases events.len(),
{
    if events.len() == 0 {
        attempt
    } else {
        click_next(click_run(attempt, events.drop_last()), events.last())
    }
}

/// `rand::Rng::random_range` on the generator of `rand::rng`, over the range
/// from `low` up to but not including `high`: it gives some value of the range.
/// Which one is left to chance.
#[verifier::external_body]
fn random_between(low: u64, high: u64) -> (value: u64)
    requires
        low < high,
    ensures
        low <= value < high,
{
    rand::rng().random_range(low..high)
}

/// Begins an attempt with the given number of points and the given pause.
pub fn click_attempt(steps: u8, click_pause_ms: u64) -> (attempt: ClickAttempt)
    ensures
        fresh_attempt(attempt, steps, click_pause_ms),
{
    ClickAttempt {
        steps,
        click_pause_ms,
        phase: ClickPhase::Document,
        target: None,
        mode: ChallengeClickMode::IframeCheckboxRegion,
        path: Vec::new(),
        reached: 0,
    }
}

/// Begins an attempt, with as many points and as long a pause as chance has it.
pub fn try_click_challenge() -> (attempt: ClickAttempt)
    ensures
        fresh_attempt(attempt, attempt.steps, attempt.click_pause_ms),
        PATH_POINTS_MIN <= attempt.steps < PATH_POINTS_END,
        CLICK_PAUSE_MIN_MS <= attempt.click_pause_ms < CLICK_PAUSE_END_MS,
        12 <= attempt.steps < 22,
        40 <= attempt.click_pause_ms < 120,
{
    let steps: u64 = random_between(PATH_POINTS_MIN, PATH_POINTS_END);
    let click_pause_ms: u64 = random_between(CLICK_PAUSE_MIN_MS, CLICK_PAUSE_END_MS);
    click_attempt(steps as u8, click_pause_ms)
}

/// Where an attempt goes once a box was read.
fn phase_after_box(coordinates: usize) -> (phase: ClickPhase)
    ensures
        phase == after_box(coordinates),
{
    if coordinates < BOX_COORDINATES {
        ClickPhase::Done(false)
    } else {
        ClickPhase::Measure
    }
}

impl ClickAttempt {
    /// What the attempt asks for now.
    pub fn pending(&self) -> (action: ClickAction)
        ensures
            action == click_pending(*self),
    {
        match self.phase {
            ClickPhase::Document => ClickAction::GetDocument { depth: DOCUMENT_DEPTH, pierce: true },
            ClickPhase::CheckboxBox => match self.target {
                Some(target) => match target.checkbox_node_id {
                    Some(id) => ClickAction::GetBoxModel(id),
                    None => ClickAction::GetBoxModel(target.iframe_node_id),
                },
                None => ClickAction::Return(false),
            },
            ClickPhase::IframeBox => match self.target {
                Some(target) => ClickAction::GetBoxModel(target.iframe_node_id),
                None => ClickAction::Return(false),
            },
            ClickPhase::Measure => ClickAction::Measure,
            ClickPhase::Plan => ClickAction::PlanPath { mode: self.mode, points: self.steps },
            ClickPhase::Move => ClickAction::MoveTo(self.reached),
            ClickPhase::PointPause => if self.reached < self.path.len() {
                let ms: u64 = self.path[self.reached];
                if ms <= POINT_PAUSE_MAX_MS {
                    ClickAction::Sleep(ms)
                } else {
                    ClickAction::Sleep(POINT_PAUSE_MAX_MS)
                }
            } else {
                ClickAction::Sleep(0)
            },
            ClickPhase::ClickPause => ClickAction::Sleep(self.click_pause_ms),
            ClickPhase::Press => ClickAction::Click,
            ClickPhase::Done(clicked) => ClickAction::Return(clicked),
        }
    }

    /// Goes on after an event.
    pub fn step(&mut self, event: ClickEvent)
        ensures
            *final(self) == click_next(*old(self), event),
    {
        match (self.phase, event) {
            (ClickPhase::Document, ClickEvent::Document(root)) => {
                let target: Option<ChallengeTarget> = match &root {
                    Some(node) => find_challenge_target(node),
                    None => None,
                };
                match target {
                    None => {
                        self.phase = ClickPhase::Done(false);
                    },
                    Some(found) => {
                        self.target = target;
                        if found.checkbox_node_id.is_some() {
                            self.phase = ClickPhase::CheckboxBox;
                            self.mode = ChallengeClickMode::ElementCenter;
                        } else {
                            self.phase = ClickPhase::IframeBox;
                            self.mode = ChallengeClickMode::IframeCheckboxRegion;
                        }
                    },
                }
            },
            (ClickPhase::CheckboxBox, ClickEvent::BoxModel(reply)) => match reply {
                Some(coordinates) => {
                    self.phase = phase_after_box(coordinates);
                },
                None => {
                    self.phase = ClickPhase::IframeBox;
                    self.mode = ChallengeClickMode::IframeCheckboxRegion;
                },
            },
            (ClickPhase::IframeBox, ClickEvent::BoxModel(reply)) => match reply {
                Some(coordinates) => {
                    self.phase = phase_after_box(coordinates);
                },
                None => {
                    self.phase = ClickPhase::Done(false);
                },
            },
            (ClickPhase::Measure, ClickEvent::Area(clickable)) => {
                self.phase = if clickable {
                    ClickPhase::Plan
                } else {
                    ClickPhase::Done(false)
                };
            },
            (ClickPhase::Plan, ClickEvent::Path(path)) => {
                if path.len() == self.steps as usize {
                    self.path = path;
                    self.phase = if self.reached < self.steps as usize {
                        ClickPhase::Move
                    } else {
                        ClickPhase::ClickPause
                    };
                }
            },
            (ClickPhase::Move, ClickEvent::Moved(moved)) => {
                self.phase = if moved {
                    ClickPhase::PointPause
                } else {
                    ClickPhase::Done(false)
                };
            },
            (ClickPhase::PointPause, ClickEvent::Slept) => {
                let steps: usize = self.steps as usize;
                if steps > 0 && self.reached < steps - 1 {
                    self.reached = self.reached + 1;
                    self.phase = ClickPhase::Move;
                } else {
                    self.reached = steps;
                    self.phase = ClickPhase::ClickPause;
                }
            },
            (ClickPhase::ClickPause, ClickEvent::Slept) => {
                self.phase = ClickPhase::Press;
            },
            (ClickPhase::Press, ClickEvent::Clicked(clicked)) => {
                self.phase = ClickPhase::Done(clicked);
            },
            _ => {},
        }
    }
}

/// The state of an attempt fits its phase.
pub open spec fn click_valid(attempt: ClickAttempt) -> bool {
    let located = match attempt.phase {
        ClickPhase::Document => false,
        ClickPhase::Done(clicked) => clicked,
        _ => true,
    };
    &&& attempt.reached <= attempt.steps
    &&& located ==> attempt.target is Some
    &&& located && attempt.mode == ChallengeClickMode::ElementCenter
        ==> attempt.target->0.checkbox_node_id is Some
    &&& attempt.phase == ClickPhase::CheckboxBox ==> attempt.mode
        == ChallengeClickMode::ElementCenter
    &&& attempt.phase == ClickPhase::IframeBox ==> attempt.mode
        == ChallengeClickMode::IframeCheckboxRegion
    &&& match attempt.phase {
        ClickPhase::Move | ClickPhase::PointPause => attempt.reached < attempt.steps
            && attempt.path@.len() == attempt.steps,
        ClickPhase::ClickPause | ClickPhase::Press | ClickPhase::Done(true) => attempt.reached
            == attempt.steps,
        ClickPhase::Done(false) => true,
        _ => attempt.reached == 0,
    }
}

/// How many of the moves that were asked for were made.
pub open spec fn moves(start: ClickAttempt, events: Seq<ClickEvent>) -> nat
    decreases events.len(),
{
    if events.len() == 0 {
        0
    } else {
        moves(start, events.drop_last()) + (if click_pending(click_run(start, events.drop_last()))
            is MoveTo && events.last() == ClickEvent::Moved(true) {
            1nat
        } else {
            0
        })
    }
}

/// How many points of the path the pointer has been moved to: those reached,
/// and the one it pauses at.
pub open spec fn points_moved_to(attempt: ClickAttempt) -> int {
    if attempt.phase == ClickPhase::PointPause {
        attempt.reached + 1
    } else {
        attempt.reached as int
    }
}

/// The click was asked for and made.
pub open spec fn click_made(start: ClickAttempt, events: Seq<ClickEvent>) -> bool {
    exists|k: int|
        0 <= k < events.len() && click_pending(click_run(start, #[trigger] events.take(k)))
            == ClickAction::Click && events[k] == ClickEvent::Clicked(true)
}

/// An attempt is valid at every point, and counts exactly the moves that were
/// asked for and made.
pub proof fn law_attempt_stays_valid(
    start: ClickAttempt,
    steps: u8,
    click_pause_ms: u64,
    events: Seq<ClickEvent>,
)
    requires
        fresh_attempt(start, steps, click_pause_ms),
    ensures
        ({
            let attempt = click_run(start, events);
            &&& click_valid(attempt)
            &&& attempt.steps == steps
            &&& attempt.click_pause_ms == click_pause_ms
            &&& points_moved_to(attempt) == moves(start, events)
        }),
{
    lemma_attempt(start, steps, click_pause_ms, events);
}

proof fn lemma_attempt(
    start: ClickAttempt,
    steps: u8,
    click_pause_ms: u64,
    events: Seq<ClickEvent>,
)
    requires
        fresh_attempt(start, steps, click_pause_ms),
    ensures
        ({
            let attempt = click_run(start, events);
            &&& click_valid(attempt)
            &&& attempt.steps == steps
            &&& attempt.click_pause_ms == click_pause_ms
            &&& points_moved_to(attempt) == moves(start, events)
            &&& attempt.phase == ClickPhase::Done(true) ==> click_made(start, events)
        }),
    decreases events.len(),
{
    if events.len() > 0 {
        let before = events.drop_last();
        lemma_attempt(start, steps, click_pause_ms, before);
        assert(events.take(before.len() as int) =~= before);
        assert(events[before.len() as int] == events.last());
        if click_run(start, before).phase == ClickPhase::Done(true) {
            let k = choose|k: int|
                0 <= k < before.len() && click_pending(click_run(start, #[trigger] before.take(k)))
                    == ClickAction::Click && before[k] == ClickEvent::Clicked(true);
            assert(before.take(k) =~= events.take(k));
            assert(events[k] == before[k]);
        }
    }
}

/// An attempt that reports a click asked for it and made it, after moving the
/// pointer, as asked, to each of the points of its path once.
pub proof fn law_reported_click_was_made(
    start: ClickAttempt,
    steps: u8,
    click_pause_ms: u64,
    events: Seq<ClickEvent>,
)
    requires
        fresh_attempt(start, steps, click_pause_ms),
        click_pending(click_run(start, events)) == ClickAction::Return(true),
    ensures
        exists|k: int|
            0 <= k < events.len() && click_pending(click_run(start, #[trigger] events.take(k)))
                == ClickAction::Click && events[k] == ClickEvent::Clicked(true),
        moves(start, events) == steps,
{
    lemma_attempt(start, steps, click_pause_ms, events);
}

/// The moves go to the points of the path in order: what is asked for next is
/// the point numbered as many as were moved to.
pub proof fn law_points_are_moved_to_in_order(
    start: ClickAttempt,
    steps: u8,
    click_pause_ms: u64,
    events: Seq<ClickEvent>,
)
    requires
        fresh_attempt(start, steps, click_pause_ms),
    ensures
        click_pending(click_run(start, events)) matches ClickAction::MoveTo(point) ==> point
            == moves(start, events) && point < steps,
{
    lemma_attempt(start, steps, click_pause_ms, events);
}

/// The pauses stay within their bounds: the one before the click as it was
/// chosen, every other at most the cap.
pub proof fn law_pauses_are_bounded(attempt: ClickAttempt)
    ensures
        click_pending(attempt) matches ClickAction::Sleep(ms) ==> ms <= POINT_PAUSE_MAX_MS || (
        attempt.phase == ClickPhase::ClickPause && ms == attempt.click_pause_ms),
{
}

/// The checkbox is preferred where the tree shows one, and clicked in its
/// middle; else the iframe is, where the checkbox is drawn.
pub proof fn law_checkbox_is_preferred(attempt: ClickAttempt, root: Node)
    requires
        attempt.phase == ClickPhase::Document,
        challenge_target(root) is Some,
    ensures
        ({
            let target = challenge_target(root)->0;
            let found = click_next(attempt, ClickEvent::Document(Some(root)));
            &&& click_pending(found) == ClickAction::GetBoxModel(preferred_node(target))
            &&& found.mode == (if target.checkbox_node_id is Some {
                ChallengeClickMode::ElementCenter
            } else {
                ChallengeClickMode::IframeCheckboxRegion
            })
        }),
{
}

/// Where the box of the checkbox cannot be read, the iframe stands in for it.
pub proof fn law_iframe_stands_in_for_checkbox(attempt: ClickAttempt)
    requires
        click_valid(attempt),
        attempt.phase == ClickPhase::CheckboxBox,
    ensures
        ({
            let next = click_next(attempt, ClickEvent::BoxModel(None));
            &&& click_pending(next) == ClickAction::GetBoxModel(attempt.target->0.iframe_node_id)
            &&& next.mode == ChallengeClickMode::IframeCheckboxRegion
        }),
{
}

/// Without a widget in the tree, or without a tree, the attempt is over.
pub proof fn law_no_widget_no_click(attempt: ClickAttempt, root: Option<Node>)
    requires
        attempt.phase == ClickPhase::Document,
        root matches Some(node) ==> challenge_target(node) is None,
    ensures
        click_pending(click_next(attempt, ClickEvent::Document(root))) == ClickAction::Return(
            false,
        ),
{
}

/// An attempt that is over stays over.
pub proof fn law_ended_attempt_stays_ended(attempt: ClickAttempt, event: ClickEvent)
    requires
        attempt.phase is Done,
    ensures
        click_next(attempt, event) == attempt,
{
}

} // verus!
