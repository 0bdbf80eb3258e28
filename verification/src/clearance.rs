//! Waiting until the browser holds the clearance cookie.

use crate::models::{cleared, cookies_if_any, has_clearance_cookie, RawCookie};
use crate::time::{lemma_short_millis_bound, millis, nanos_between, short_millis, Elapsed};
use vstd::prelude::*;

verus! {

/// For this long from the start the page is left alone: its invisible checks
/// run then, and looking at the document meanwhile would disturb them.
pub const PASSIVE_WAIT_MS: u64 = 6_000;

/// At least this long passes from one click to the next.
pub const CLICK_INTERVAL_MS: u64 = 1_200;

/// The pause between two looks at the cookies.
pub const POLL_PAUSE_MS: u64 = 400;

/// The pause after the cookie was seen.
pub const SETTLE_PAUSE_MS: u64 = 500;

/// Before the first click, the last one counts as this long before the start.
pub const FIRST_CLICK_CREDIT_NANOS: u128 = 30_000_000_000;

/// What a wait has come to.
#[derive(Debug, Clone, Copy, PartialEq, Eq, Structural)]
pub enum ClearancePhase {
    /// The cookies are to be read.
    Probe,
    /// The clock is to be read, for the time allowed.
    Deadline,
    /// The clock is to be read, for the passive window.
    Passive,
    /// The clock is to be read, for the time since the last click.
    Interval,
    /// The widget is to be looked for and clicked.
    Click,
    /// The clock is to be read, for the time of the click.
    Stamp,
    /// The pause before the next look.
    Pause,
    /// The pause after the cookie was seen.
    Settle,
    /// The wait is over.
    Done,
}

/// A wait for the clearance cookie. Times are nanoseconds since its start.
#[derive(Debug, Clone, Copy, PartialEq, Eq, Structural)]
pub struct ClearanceWait {
    pub timeout_nanos: u128,
    pub last_click: Option<u128>,
    pub phase: ClearancePhase,
}

/// What a wait asks for.
#[derive(Debug, Clone, Copy, PartialEq, Eq, Structural)]
pub enum ClearanceAction {
    /// Read the cookies of the browser.
    ReadCookies,
    /// Read how much time has passed since the wait began.
    ReadClock,
    /// Look for the widget and click it.
    TryClick,
    /// Sleep for so many milliseconds.
    Sleep(u64),
    /// Nothing more: the wait is over.
    Return,
}

/// What a wait is told.
#[derive(Debug)]
pub enum ClearanceEvent {
    /// The cookies of the browser, where they could be read.
    Cookies(Option<Vec<RawCookie>>),
    /// The time since the wait began.
    Clock(Elapsed),
    /// Whether the widget was clicked.
    Clicked(bool),
    /// The sleep is over.
    Slept,
}

/// The nanoseconds from the last click to `now`.
pub open spec fn since_click(last_click: Option<u128>, now: int) -> int {
    match last_click {
        Some(at) => nanos_between(at as int, now),
        None => now + FIRST_CLICK_CREDIT_NANOS,
    }
}

/// A wait that has just begun.
pub open spec fn clearance_start(timeout_seconds: u64) -> ClearanceWait {
    ClearanceWait {
        timeout_nanos: (timeout_seconds * 1_000_000_000) as u128,
        last_click: None,
        phase: ClearancePhase::Probe,
    }
}

/// What a wait asks for in a state.
pub open spec fn clearance_pending(wait: ClearanceWait) -> ClearanceAction {
    match wait.phase {
        ClearancePhase::Probe => ClearanceAction::ReadCookies,
        ClearancePhase::Deadline => ClearanceAction::ReadClock,
        ClearancePhase::Passive => ClearanceAction::ReadClock,
        ClearancePhase::Interval => ClearanceAction::ReadClock,
        ClearancePhase::Click => ClearanceAction::TryClick,
        ClearancePhase::Stamp => ClearanceAction::ReadClock,
        ClearancePhase::Pause => ClearanceAction::Sleep(POLL_PAUSE_MS),
        ClearancePhase::Settle => ClearanceAction::Sleep(SETTLE_PAUSE_MS),
        ClearancePhase::Done => ClearanceAction::Return,
    }
}

/// The state after an event. An event that answers nothing asked changes nothing.
pub open spec fn clearance_next(wait: ClearanceWait, event: ClearanceEvent) -> ClearanceWait {
    match (wait.phase, event) {
        (ClearancePhase::Probe, ClearanceEvent::Cookies(cookies)) => ClearanceWait {
            phase: if cleared(cookies_if_any(cookies)) {
                ClearancePhase::Settle
            } else {
                ClearancePhase::Deadline
            },
            ..wait
        },
        (ClearancePhase::Deadline, ClearanceEvent::Clock(now)) => ClearanceWait {
            phase: if now.total_nanos() >= wait.timeout_nanos {
                ClearancePhase::Done
            } else {
                ClearancePhase::Passive
            },
            ..wait
        },
        (ClearancePhase::Passive, ClearanceEvent::Clock(now)) => ClearanceWait {
            phase: if short_millis(now.total_nanos()) >= PASSIVE_WAIT_MS {
                ClearancePhase::Interval
            } else {
                ClearancePhase::Pause
            },
            ..wait
        },
        (ClearancePhase::Interval, ClearanceEvent::Clock(now)) => ClearanceWait {
            phase: if short_millis(since_click(wait.last_click, now.total_nanos()))
                >= CLICK_INTERVAL_MS {
                ClearancePhase::Click
            } else {
                ClearancePhase::Pause
            },
            ..wait
        },
        (ClearancePhase::Click, ClearanceEvent::Clicked(clicked)) => ClearanceWait {
            phase: if clicked {
                ClearancePhase::Stamp
            } else {
                ClearancePhase::Pause
            },
            ..wait
        },
        (ClearancePhase::Stamp, ClearanceEvent::Clock(now)) => ClearanceWait {
            last_click: Some(now.total_nanos() as u128),
            phase: ClearancePhase::Pause,
            ..wait
        },
        (ClearancePhase::Pause, ClearanceEvent::Slept) => ClearanceWait {
            phase: ClearancePhase::Probe,
            ..wait
        },
        (ClearancePhase::Settle, ClearanceEvent::Slept) => ClearanceWait {
            phase: ClearancePhase::Done,
            ..wait
        },
        _ => wait,
    }
}

/// The state after a sequence of events.
pub open spec fn clearance_run(
    wait: ClearanceWait,
    events: Seq<ClearanceEvent>,
) -> ClearanceWait
    decreases events.len(),
{
    if events.len() == 0 {
        wait
    } else {
        clearance_next(clearance_run(wait, events.drop_last()), events.last())
    }
}

/// Begins to wait, for at most so many seconds, until the clearance cookie
/// appears.
pub fn wait_for_clearance(timeout_seconds: u64) -> (wait: ClearanceWait)
    ensures
        wait == clearance_start(timeout_seconds),
        wait.timeout_nanos == timeout_seconds * 1_000_000_000,
{
    ClearanceWait {
        timeout_nanos: timeout_seconds as u128 * 1_000_000_000,
        last_click: None,
        phase: ClearancePhase::Probe,
    }
}

impl ClearanceWait {
    /// What the wait asks for now.
    pub fn pending(&self) -> (action: ClearanceAction)
        ensures
            action == clearance_pending(*self),
    {
        match self.phase {
            ClearancePhase::Probe => ClearanceAction::ReadCookies,
            ClearancePhase::Deadline => ClearanceAction::ReadClock,
            ClearancePhase::Passive => ClearanceAction::ReadClock,
            ClearancePhase::Interval => ClearanceAction::ReadClock,
            ClearancePhase::Click => ClearanceAction::TryClick,
            ClearancePhase::Stamp => ClearanceAction::ReadClock,
            ClearancePhase::Pause => ClearanceAction::Sleep(POLL_PAUSE_MS),
            ClearancePhase::Settle => ClearanceAction::Sleep(SETTLE_PAUSE_MS),
            ClearancePhase::Done => ClearanceAction::Return,
        }
    }

    /// The nanoseconds from the last click to `now`.
    fn nanos_since_click(&self, now: &Elapsed) -> (nanos: u128)
        ensures
            nanos == since_click(self.last_click, now.total_nanos()),
    {
        let now_nanos: u128 = now.as_nanos();
        match self.last_click {
            Some(at) => if now_nanos >= at {
                now_nanos - at
            } else {
                0
            },
            None => now_nanos + FIRST_CLICK_CREDIT_NANOS,
        }
    }

    /// Goes on after an event.
    pub fn step(&mut self, event: ClearanceEvent)
        ensures
            *final(self) == clearance_next(*old(self), event),
    {
        match (self.phase, event) {
            (ClearancePhase::Probe, ClearanceEvent::Cookies(cookies)) => {
                self.phase = if has_clearance_cookie(&cookies) {
                    ClearancePhase::Settle
                } else {
                    ClearancePhase::Deadline
                };
            },
            (ClearancePhase::Deadline, ClearanceEvent::Clock(now)) => {
                self.phase = if now.as_nanos() >= self.timeout_nanos {
                    ClearancePhase::Done
                } else {
                    ClearancePhase::Passive
                };
            },
            (ClearancePhase::Passive, ClearanceEvent::Clock(now)) => {
                self.phase = if millis(now.as_nanos()) >= PASSIVE_WAIT_MS {
                    ClearancePhase::Interval
                } else {
                    ClearancePhase::Pause
                };
            },
            (ClearancePhase::Interval, ClearanceEvent::Clock(now)) => {
                self.phase = if millis(self.nanos_since_click(&now)) >= CLICK_INTERVAL_MS {
                    ClearancePhase::Click
                } else {
                    ClearancePhase::Pause
                };
            },
            (ClearancePhase::Click, ClearanceEvent::Clicked(clicked)) => {
                self.phase = if clicked {
                    ClearancePhase::Stamp
                } else {
                    ClearancePhase::Pause
                };
            },
            (ClearancePhase::Stamp, ClearanceEvent::Clock(now)) => {
                self.last_click = Some(now.as_nanos());
                self.phase = ClearancePhase::Pause;
            },
            (ClearancePhase::Pause, ClearanceEvent::Slept) => {
                self.phase = ClearancePhase::Probe;
            },
            (ClearancePhase::Settle, ClearanceEvent::Slept) => {
                self.phase = ClearancePhase::Done;
            },
            _ => {},
        }
    }
}

/// A clock reading that was asked for in the phase came back as at least
/// `nanos`.
pub open spec fn clock_reached(
    start: ClearanceWait,
    events: Seq<ClearanceEvent>,
    phase: ClearancePhase,
    nanos: int,
) -> bool {
    exists|k: int|
        0 <= k < events.len() && clearance_run(start, #[trigger] events.take(k)).phase == phase
            && clearance_pending(clearance_run(start, events.take(k)))
            == ClearanceAction::ReadClock && (events[k] matches ClearanceEvent::Clock(now)
            && now.total_nanos() >= nanos)
}

/// A look at the cookies that was asked for showed the clearance cookie.
pub open spec fn clearance_seen(start: ClearanceWait, events: Seq<ClearanceEvent>) -> bool {
    exists|k: int|
        0 <= k < events.len() && clearance_pending(
            clearance_run(start, #[trigger] events.take(k)),
        ) == ClearanceAction::ReadCookies && (events[k] matches ClearanceEvent::Cookies(cookies)
            && cleared(cookies_if_any(cookies)))
}

/// The clock reading that is asked for after a click came back as `at`.
pub open spec fn click_stamped(
    start: ClearanceWait,
    events: Seq<ClearanceEvent>,
    at: int,
) -> bool {
    exists|k: int|
        0 <= k < events.len() && clearance_run(start, #[trigger] events.take(k)).phase
            == ClearancePhase::Stamp && (events[k] matches ClearanceEvent::Clock(now)
            && now.total_nanos() == at)
}

proof fn lemma_clock_reached_grows(
    start: ClearanceWait,
    events: Seq<ClearanceEvent>,
    phase: ClearancePhase,
    nanos: int,
)
    requires
        events.len() > 0,
    ensures
        clock_reached(start, events.drop_last(), phase, nanos) ==> clock_reached(
            start,
            events,
            phase,
            nanos,
        ),
        ({
            let wait = clearance_run(start, events.drop_last());
            wait.phase == phase && clearance_pending(wait) == ClearanceAction::ReadClock && (
            events.last() matches ClearanceEvent::Clock(now) && now.total_nanos() >= nanos)
        }) ==> clock_reached(start, events, phase, nanos),
{
    let before = events.drop_last();
    if clock_reached(start, before, phase, nanos) {
        let k = choose|k: int|
            0 <= k < before.len() && clearance_run(start, #[trigger] before.take(k)).phase == phase
                && clearance_pending(clearance_run(start, before.take(k)))
                == ClearanceAction::ReadClock && (before[k] matches ClearanceEvent::Clock(now)
                && now.total_nanos() >= nanos);
        assert(before.take(k) =~= events.take(k));
        assert(events[k] == before[k]);
    }
    assert(events.take(before.len() as int) =~= before);
    assert(events[before.len() as int] == events.last());
}

proof fn lemma_clearance_seen_grows(start: ClearanceWait, events: Seq<ClearanceEvent>)
    requires
        events.len() > 0,
    ensures
        clearance_seen(start, events.drop_last()) ==> clearance_seen(start, events),
        clearance_pending(clearance_run(start, events.drop_last())) == ClearanceAction::ReadCookies
            && (events.last() matches ClearanceEvent::Cookies(cookies) && cleared(
            cookies_if_any(cookies),
        )) ==> clearance_seen(start, events),
{
    let before = events.drop_last();
    if clearance_seen(start, before) {
        let k = choose|k: int|
            0 <= k < before.len() && clearance_pending(
                clearance_run(start, #[trigger] before.take(k)),
            ) == ClearanceAction::ReadCookies && (before[k] matches ClearanceEvent::Cookies(cookies)
                && cleared(cookies_if_any(cookies)));
        assert(before.take(k) =~= events.take(k));
        assert(events[k] == before[k]);
    }
    assert(events.take(before.len() as int) =~= before);
    assert(events[before.len() as int] == events.last());
}

proof fn lemma_click_stamped_grows(start: ClearanceWait, events: Seq<ClearanceEvent>, at: int)
    requires
        events.len() > 0,
    ensures
        click_stamped(start, events.drop_last(), at) ==> click_stamped(start, events, at),
        clearance_run(start, events.drop_last()).phase == ClearancePhase::Stamp && (
        events.last() matches ClearanceEvent::Clock(now) && now.total_nanos() == at)
            ==> click_stamped(start, events, at),
{
    let before = events.drop_last();
    if click_stamped(start, before, at) {
        let k = choose|k: int|
            0 <= k < before.len() && clearance_run(start, #[trigger] before.take(k)).phase
                == ClearancePhase::Stamp && (before[k] matches ClearanceEvent::Clock(now)
                && now.total_nanos() == at);
        assert(before.take(k) =~= events.take(k));
        assert(events[k] == before[k]);
    }
    assert(events.take(before.len() as int) =~= before);
    assert(events[before.len() as int] == events.last());
}

proof fn lemma_passive_window(timeout_seconds: u64, events: Seq<ClearanceEvent>)
    ensures
        ({
            let start = clearance_start(timeout_seconds);
            let phase = clearance_run(start, events).phase;
            phase == ClearancePhase::Interval || phase == ClearancePhase::Click || phase
                == ClearancePhase::Stamp ==> clock_reached(
                start,
                events,
                ClearancePhase::Passive,
                PASSIVE_WAIT_MS * 1_000_000,
            )
        }),
    decreases events.len(),
{
    if events.len() > 0 {
        lemma_passive_window(timeout_seconds, events.drop_last());
        lemma_clock_reached_grows(
            clearance_start(timeout_seconds),
            events,
            ClearancePhase::Passive,
            PASSIVE_WAIT_MS * 1_000_000,
        );
        if let ClearanceEvent::Clock(now) = events.last() {
            lemma_short_millis_bound(now.total_nanos());
        }
    }
}

/// The document is not looked at, and nothing is clicked, before the clock,
/// read for that purpose, is past the passive window, whatever the browser
/// reports.
pub proof fn law_no_click_in_passive_window(timeout_seconds: u64, events: Seq<ClearanceEvent>)
    ensures
        clearance_pending(clearance_run(clearance_start(timeout_seconds), events))
            == ClearanceAction::TryClick ==> clock_reached(
            clearance_start(timeout_seconds),
            events,
            ClearancePhase::Passive,
            PASSIVE_WAIT_MS * 1_000_000,
        ),
{
    lemma_passive_window(timeout_seconds, events);
}

/// After a click, the next one is not tried before the clock, read for that
/// purpose, is the interval later. The time of a click is what the clock,
/// read after it, gave.
pub proof fn law_clicks_keep_their_distance(timeout_seconds: u64, events: Seq<ClearanceEvent>)
    ensures
        ({
            let start = clearance_start(timeout_seconds);
            let wait = clearance_run(start, events);
            wait.last_click matches Some(at) ==> {
                &&& click_stamped(start, events, at as int)
                &&& clearance_pending(wait) == ClearanceAction::TryClick ==> clock_reached(
                    start,
                    events,
                    ClearancePhase::Interval,
                    at + CLICK_INTERVAL_MS * 1_000_000,
                )
            }
        }),
    decreases events.len(),
{
    if events.len() > 0 {
        let start = clearance_start(timeout_seconds);
        law_clicks_keep_their_distance(timeout_seconds, events.drop_last());
        let wait = clearance_run(start, events.drop_last());
        if let Some(at) = clearance_run(start, events).last_click {
            lemma_click_stamped_grows(start, events, at as int);
            lemma_clock_reached_grows(
                start,
                events,
                ClearancePhase::Interval,
                at + CLICK_INTERVAL_MS * 1_000_000,
            );
            if let ClearanceEvent::Clock(now) = events.last() {
                lemma_short_millis_bound(since_click(wait.last_click, now.total_nanos()));
            }
        }
    }
}

/// A click is stamped only after one was asked for and made.
pub proof fn law_only_made_clicks_are_stamped(wait: ClearanceWait, event: ClearanceEvent)
    requires
        wait.phase != ClearancePhase::Stamp,
        clearance_next(wait, event).phase == ClearancePhase::Stamp,
    ensures
        clearance_pending(wait) == ClearanceAction::TryClick,
        event == ClearanceEvent::Clicked(true),
{
}

proof fn lemma_clearance_end(timeout_seconds: u64, events: Seq<ClearanceEvent>)
    ensures
        ({
            let start = clearance_start(timeout_seconds);
            let wait = clearance_run(start, events);
            &&& wait.timeout_nanos == timeout_seconds * 1_000_000_000
            &&& wait.phase == ClearancePhase::Settle ==> clearance_seen(start, events)
            &&& wait.phase == ClearancePhase::Done ==> clearance_seen(start, events)
                || clock_reached(
                start,
                events,
                ClearancePhase::Deadline,
                timeout_seconds * 1_000_000_000,
            )
        }),
    decreases events.len(),
{
    if events.len() > 0 {
        let start = clearance_start(timeout_seconds);
        lemma_clearance_end(timeout_seconds, events.drop_last());
        lemma_clock_reached_grows(
            start,
            events,
            ClearancePhase::Deadline,
            timeout_seconds * 1_000_000_000,
        );
        lemma_clearance_seen_grows(start, events);
    }
}

/// The wait is over only once a look that was asked for showed the cookie, or
/// the clock, read for that purpose, had reached the time allowed.
pub proof fn law_wait_ends_by_cookie_or_time(timeout_seconds: u64, events: Seq<ClearanceEvent>)
    ensures
        clearance_pending(clearance_run(clearance_start(timeout_seconds), events))
            == ClearanceAction::Return ==> clearance_seen(clearance_start(timeout_seconds), events)
            || clock_reached(
            clearance_start(timeout_seconds),
            events,
            ClearancePhase::Deadline,
            timeout_seconds * 1_000_000_000,
        ),
{
    lemma_clearance_end(timeout_seconds, events);
}

/// A look that shows the cookie ends the wait, after one last pause, however
/// much time has passed.
pub proof fn law_cookie_ends_the_wait(wait: ClearanceWait, cookies: Option<Vec<RawCookie>>)
    requires
        clearance_pending(wait) == ClearanceAction::ReadCookies,
        cleared(cookies_if_any(cookies)),
    ensures
        ({
            let seen = clearance_next(wait, ClearanceEvent::Cookies(cookies));
            &&& clearance_pending(seen) == ClearanceAction::Sleep(SETTLE_PAUSE_MS)
            &&& clearance_pending(clearance_next(seen, ClearanceEvent::Slept))
                == ClearanceAction::Return
        }),
{
}

/// Once the time is up, the next look that does not show the cookie is the
/// last: no click follows it.
pub proof fn law_time_ends_the_wait(
    wait: ClearanceWait,
    cookies: Option<Vec<RawCookie>>,
    now: Elapsed,
)
    requires
        clearance_pending(wait) == ClearanceAction::ReadCookies,
        !cleared(cookies_if_any(cookies)),
        now.total_nanos() >= wait.timeout_nanos,
    ensures
        ({
            let looked = clearance_next(wait, ClearanceEvent::Cookies(cookies));
            &&& clearance_pending(looked) == ClearanceAction::ReadClock
            &&& clearance_pending(clearance_next(looked, ClearanceEvent::Clock(now)))
                == ClearanceAction::Return
        }),
{
}

/// A wait that is over stays over.
pub proof fn law_ended_wait_stays_ended(wait: ClearanceWait, event: ClearanceEvent)
    requires
        clearance_pending(wait) == ClearanceAction::Return,
    ensures
        clearance_next(wait, event) == wait,
{
}

} // verus!
