//! What an attempt to click asks for, reply by reply, in every run.

use crate::click::{
    click_next, click_pending, click_run, click_valid, fresh_attempt, law_attempt_stays_valid,
    ChallengeClickMode, ClickAction, ClickAttempt, ClickEvent, ClickPhase,
};
use crate::dom::{challenge_target, ChallengeTarget, Node};
use vstd::prelude::*;

verus! {

/// What there was to click in the document tree that was asked for.
pub open spec fn target_found(start: ClickAttempt, events: Seq<ClickEvent>) -> Option<
    ChallengeTarget,
>
    decreases events.len(),
{
    if events.len() == 0 {
        None
    } else {
        let before = events.drop_last();
        match events.last() {
            ClickEvent::Document(Some(root)) => if click_pending(click_run(start, before))
                is GetDocument {
                challenge_target(root)
            } else {
                target_found(start, before)
            },
            _ => target_found(start, before),
        }
    }
}

/// The node whose box was read last, as asked.
pub open spec fn box_read(start: ClickAttempt, events: Seq<ClickEvent>) -> Option<i64>
    decreases events.len(),
{
    if events.len() == 0 {
        None
    } else {
        let before = events.drop_last();
        match (click_pending(click_run(start, before)), events.last()) {
            (ClickAction::GetBoxModel(id), ClickEvent::BoxModel(Some(_))) => Some(id),
            _ => box_read(start, before),
        }
    }
}

/// A box that was asked for could not be read.
pub open spec fn box_refused(start: ClickAttempt, events: Seq<ClickEvent>) -> bool
    decreases events.len(),
{
    if events.len() == 0 {
        false
    } else {
        let before = events.drop_last();
        box_refused(start, before) || (click_pending(click_run(start, before)) is GetBoxModel
            && events.last() == ClickEvent::BoxModel(None))
    }
}

/// The pauses of the path that was laid as asked.
pub open spec fn path_laid(start: ClickAttempt, events: Seq<ClickEvent>) -> Option<Seq<u64>>
    decreases events.len(),
{
    if events.len() == 0 {
        None
    } else {
        let before = events.drop_last();
        match (click_pending(click_run(start, before)), events.last()) {
            (ClickAction::PlanPath { mode, points }, ClickEvent::Path(pauses)) => if pauses@.len()
                == points {
                Some(pauses@)
            } else {
                path_laid(start, before)
            },
            _ => path_laid(start, before),
        }
    }
}

/// The box is that of the checkbox: there is one, and it could be read.
pub open spec fn checkbox_counts(start: ClickAttempt, events: Seq<ClickEvent>) -> bool {
    target_found(start, events) matches Some(target) && target.checkbox_node_id is Some
        && !box_refused(start, events)
}

/// The node whose box counts: the checkbox, or else the iframe.
pub open spec fn node_that_counts(start: ClickAttempt, events: Seq<ClickEvent>) -> i64 {
    if checkbox_counts(start, events) {
        target_found(start, events)->0.checkbox_node_id->0
    } else {
        target_found(start, events)->0.iframe_node_id
    }
}

spec fn past_boxes(phase: ClickPhase) -> bool {
    match phase {
        ClickPhase::Measure
        | ClickPhase::Plan
        | ClickPhase::Move
        | ClickPhase::PointPause
        | ClickPhase::ClickPause
        | ClickPhase::Press => true,
        _ => false,
    }
}

spec fn past_plan(phase: ClickPhase) -> bool {
    match phase {
        ClickPhase::Move
        | ClickPhase::PointPause
        | ClickPhase::ClickPause
        | ClickPhase::Press => true,
        _ => false,
    }
}

proof fn lemma_history(start: ClickAttempt, steps: u8, pause: u64, events: Seq<ClickEvent>)
    requires
        fresh_attempt(start, steps, pause),
    ensures
        ({
            let now = click_run(start, events);
            let found = target_found(start, events);
            &&& click_valid(now) && now.steps == steps && now.click_pause_ms == pause
            &&& now.phase == ClickPhase::Document ==> found is None && !box_refused(start, events)
                && box_read(start, events) is None && path_laid(start, events) is None
            &&& now.phase == ClickPhase::CheckboxBox ==> found is Some && now.target == found
                && !box_refused(start, events) && found->0.checkbox_node_id is Some
            &&& now.phase == ClickPhase::IframeBox ==> found is Some && now.target == found
                && !checkbox_counts(start, events)
            &&& past_boxes(now.phase) ==> {
                &&& found is Some && now.target == found
                &&& box_read(start, events) == Some(node_that_counts(start, events))
                &&& now.mode == (if checkbox_counts(start, events) {
                    ChallengeClickMode::ElementCenter
                } else {
                    ChallengeClickMode::IframeCheckboxRegion
                })
            }
            &&& past_plan(now.phase) ==> path_laid(start, events) == Some(now.path@)
                && now.path@.len() == steps
        }),
    decreases events.len(),
{
    law_attempt_stays_valid(start, steps, pause, events);
    if events.len() > 0 {
        let before = events.drop_last();
        law_attempt_stays_valid(start, steps, pause, before);
        lemma_history(start, steps, pause, before);
    }
}

/// When a path is asked for, it leads to the middle of the checkbox where the
/// box that was read is that of the checkbox, and to where the checkbox is
/// drawn in the iframe where it is that of the iframe; the box read last is
/// that very one; and the path has as many points as were chosen.
pub proof fn law_path_leads_to_the_box_that_was_read(
    start: ClickAttempt,
    steps: u8,
    pause: u64,
    events: Seq<ClickEvent>,
)
    requires
        fresh_attempt(start, steps, pause),
        click_pending(click_run(start, events)) is PlanPath,
    ensures
        ({
            let target = target_found(start, events)->0;
            &&& target_found(start, events) is Some
            &&& click_pending(click_run(start, events)) == (ClickAction::PlanPath {
                mode: if target.checkbox_node_id is Some && !box_refused(start, events) {
                    ChallengeClickMode::ElementCenter
                } else {
                    ChallengeClickMode::IframeCheckboxRegion
                },
                points: steps,
            })
            &&& box_read(start, events) == (if target.checkbox_node_id is Some && !box_refused(
                start,
                events,
            ) {
                target.checkbox_node_id
            } else {
                Some(target.iframe_node_id)
            })
        }),
{
    lemma_history(start, steps, pause, events);
}

/// A box is asked for only of the checkbox that was found, or of its iframe
/// where there is no checkbox or its box could not be read.
pub proof fn law_boxes_asked_for(
    start: ClickAttempt,
    steps: u8,
    pause: u64,
    events: Seq<ClickEvent>,
)
    requires
        fresh_attempt(start, steps, pause),
        click_pending(click_run(start, events)) is GetBoxModel,
    ensures
        ({
            let target = target_found(start, events)->0;
            &&& target_found(start, events) is Some
            &&& click_pending(click_run(start, events)) == ClickAction::GetBoxModel(
                if target.checkbox_node_id is Some && !box_refused(start, events) {
                    target.checkbox_node_id->0
                } else {
                    target.iframe_node_id
                },
            )
        }),
{
    lemma_history(start, steps, pause, events);
}

/// An attempt begins with the whole tree, through closed shadow roots too.
pub proof fn law_attempt_begins_with_the_whole_tree(start: ClickAttempt, steps: u8, pause: u64)
    requires
        fresh_attempt(start, steps, pause),
    ensures
        click_pending(start) == (ClickAction::GetDocument { depth: -1i64, pierce: true }),
{
}

/// What is asked for after the tree: the box of the checkbox, else of the
/// iframe; nothing where there is no tree or no widget in it.
pub proof fn law_after_the_tree(
    start: ClickAttempt,
    steps: u8,
    pause: u64,
    events: Seq<ClickEvent>,
    root: Option<Node>,
)
    requires
        fresh_attempt(start, steps, pause),
        click_pending(click_run(start, events)) is GetDocument,
    ensures
        ({
            let next = click_next(click_run(start, events), ClickEvent::Document(root));
            click_pending(next) == (match root {
                Some(node) => match challenge_target(node) {
                    Some(target) => match target.checkbox_node_id {
                        Some(id) => ClickAction::GetBoxModel(id),
                        None => ClickAction::GetBoxModel(target.iframe_node_id),
                    },
                    None => ClickAction::Return(false),
                },
                None => ClickAction::Return(false),
            })
        }),
{
    lemma_history(start, steps, pause, events);
}

/// What is asked for after a box: whether it has an area, where it has four
/// corners; the attempt is over where it has fewer. Where it could not be read,
/// the iframe stands in for the checkbox, once, and nothing for the iframe.
pub proof fn law_after_a_box(
    start: ClickAttempt,
    steps: u8,
    pause: u64,
    events: Seq<ClickEvent>,
    coordinates: usize,
)
    requires
        fresh_attempt(start, steps, pause),
        click_pending(click_run(start, events)) is GetBoxModel,
    ensures
        ({
            let now = click_run(start, events);
            let target = target_found(start, events)->0;
            let read = click_next(now, ClickEvent::BoxModel(Some(coordinates)));
            let refused = click_next(now, ClickEvent::BoxModel(None));
            &&& click_pending(read) == (if coordinates >= 8 {
                ClickAction::Measure
            } else {
                ClickAction::Return(false)
            })
            &&& click_pending(refused) == (if target.checkbox_node_id is Some && !box_refused(
                start,
                events,
            ) {
                ClickAction::GetBoxModel(target.iframe_node_id)
            } else {
                ClickAction::Return(false)
            })
        }),
{
    lemma_history(start, steps, pause, events);
}

/// A box without an area ends the attempt, and one with an area has a path
/// asked for.
pub proof fn law_after_the_measure(now: ClickAttempt)
    requires
        click_pending(now) is Measure,
    ensures
        click_pending(click_next(now, ClickEvent::Area(true))) is PlanPath,
        click_pending(click_next(now, ClickEvent::Area(false))) == ClickAction::Return(false),
{
}

/// Once a path of as many points as asked for is laid, its first point is moved
/// to; one without any is at its end, and the pause before the click begins,
/// with the click after it.
pub proof fn law_after_the_path(
    start: ClickAttempt,
    steps: u8,
    pause: u64,
    events: Seq<ClickEvent>,
    pauses: Vec<u64>,
)
    requires
        fresh_attempt(start, steps, pause),
        click_pending(click_run(start, events)) is PlanPath,
        pauses@.len() == steps,
    ensures
        click_pending(click_next(click_run(start, events), ClickEvent::Path(pauses))) == (if steps
            > 0 {
            ClickAction::MoveTo(0)
        } else {
            ClickAction::Sleep(pause)
        }),
        steps == 0 ==> click_pending(
            click_next(
                click_next(click_run(start, events), ClickEvent::Path(pauses)),
                ClickEvent::Slept,
            ),
        ) == ClickAction::Click,
{
    lemma_history(start, steps, pause, events);
}

/// After a move the pointer rests at the point for as long as the path says,
/// and for 80 ms at most. Then the next point is moved to; after the last one
/// comes the pause before the click, as long as it was chosen, and then the
/// click. A move that fails ends the attempt.
pub proof fn law_after_a_move(
    start: ClickAttempt,
    steps: u8,
    pause: u64,
    events: Seq<ClickEvent>,
    point: usize,
)
    requires
        fresh_attempt(start, steps, pause),
        click_pending(click_run(start, events)) == ClickAction::MoveTo(point),
    ensures
        ({
            let now = click_run(start, events);
            let resting = click_next(now, ClickEvent::Moved(true));
            let rested = click_next(resting, ClickEvent::Slept);
            let waited = click_next(rested, ClickEvent::Slept);
            let laid = path_laid(start, events)->0;
            &&& path_laid(start, events) is Some && point < laid.len() == steps
            &&& click_pending(click_next(now, ClickEvent::Moved(false))) == ClickAction::Return(
                false,
            )
            &&& click_pending(resting) == ClickAction::Sleep(
                if laid[point as int] <= 80 {
                    laid[point as int]
                } else {
                    80
                },
            )
            &&& if point + 1 < steps {
                click_pending(rested) == ClickAction::MoveTo((point + 1) as usize)
            } else {
                &&& click_pending(rested) == ClickAction::Sleep(pause)
                &&& click_pending(waited) == ClickAction::Click
            }
        }),
{
    lemma_history(start, steps, pause, events);
}

/// The attempt reports whether the click was made.
pub proof fn law_after_the_click(now: ClickAttempt, clicked: bool)
    requires
        click_pending(now) is Click,
    ensures
        click_pending(click_next(now, ClickEvent::Clicked(clicked))) == ClickAction::Return(
            clicked,
        ),
{
}

/// The event is of the kind that answers the action.
pub open spec fn answers_click(action: ClickAction, event: ClickEvent) -> bool {
    match action {
        ClickAction::GetDocument { depth, pierce } => event is Document,
        ClickAction::GetBoxModel(_) => event is BoxModel,
        ClickAction::Measure => event is Area,
        ClickAction::PlanPath { mode, points } => event matches ClickEvent::Path(path)
            && path@.len() == points,
        ClickAction::MoveTo(_) => event is Moved,
        ClickAction::Sleep(_) => event is Slept,
        ClickAction::Click => event is Clicked,
        ClickAction::Return(_) => false,
    }
}

/// An event that does not answer what was asked changes nothing.
pub proof fn law_unasked_event_leaves_the_attempt(
    start: ClickAttempt,
    steps: u8,
    pause: u64,
    events: Seq<ClickEvent>,
    event: ClickEvent,
)
    requires
        fresh_attempt(start, steps, pause),
        !answers_click(click_pending(click_run(start, events)), event),
    ensures
        click_next(click_run(start, events), event) == click_run(start, events),
{
    lemma_history(start, steps, pause, events);
}

} // verus!
