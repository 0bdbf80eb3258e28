//! What the waits and the interception ask for, reply by reply.

use crate::clearance::{
    clearance_next, clearance_pending, clearance_start, ClearanceAction, ClearanceEvent,
    ClearanceWait,
};
use crate::error::ErrorModel;
use crate::intercept::{route_of, served_page, ResourceKind, Route};
use crate::model_laws::{
    law_first_occurrence_is_replaced, law_nothing_to_replace, law_time_is_counted_exactly,
};
use crate::models::{Evaluated, RawCookie};
use crate::text::{occurs_at, occurs_in};
use crate::time::Elapsed;
use crate::token::{
    token_like, token_next, token_pending, token_result, token_start, TokenAction, TokenEvent,
    TokenWait, TOKEN_PROBE_SCRIPT, TURNSTILE_EXTRACTOR_SCRIPT,
};
use vstd::prelude::*;
use vstd::utf8::{encode_utf8, is_ascii_chars, is_ascii_chars_encode_utf8};

verus! {

/// The cookies could be read, and one of them is by the name of
/// `cf_clearance`.
pub open spec fn shows_clearance(cookies: Option<Vec<RawCookie>>) -> bool {
    cookies matches Some(list) && exists|i: int|
        0 <= i < list@.len() && (#[trigger] list@[i]).name@ == "cf_clearance"@
}

/// A time in nanoseconds.
pub open spec fn nanos(time: Elapsed) -> int {
    time.secs * 1_000_000_000 + time.subsec_nanos
}

/// A time that a clock of this age can show: its milliseconds fit in 64 bits,
/// also with the thirty seconds that the first click is credited with.
pub open spec fn sane(time: Elapsed) -> bool {
    time.secs < 0x1_0000_0000_0000
}

/// A wait begins by looking at the cookies, with no click made, and lasts for
/// the seconds it is given.
pub proof fn law_wait_begins_with_the_cookies(timeout_seconds: u64)
    ensures
        clearance_pending(clearance_start(timeout_seconds)) == ClearanceAction::ReadCookies,
        clearance_start(timeout_seconds).timeout_nanos == timeout_seconds * 1_000_000_000,
        clearance_start(timeout_seconds).last_click is None,
{
}

/// A round of a wait, from one look at the cookies to the next, in which the
/// cookie is not there: at the time allowed or later the wait is over; before
/// six seconds have passed nothing is touched; then the widget is tried as soon
/// as 1.2 seconds have passed since it was last clicked, and at once if it never
/// was; a click that was made is remembered by the time read after it, and one
/// that was not changes nothing. Each round ends in a pause of 400 ms.
pub proof fn law_round_of_a_wait(
    wait: ClearanceWait,
    cookies: Option<Vec<RawCookie>>,
    t1: Elapsed,
    t2: Elapsed,
    t3: Elapsed,
    clicked: bool,
    t4: Elapsed,
)
    requires
        clearance_pending(wait) == ClearanceAction::ReadCookies,
        !shows_clearance(cookies),
        sane(t1) && sane(t2) && sane(t3) && sane(t4),
    ensures
        ({
            let a = clearance_next(wait, ClearanceEvent::Cookies(cookies));
            let b = clearance_next(a, ClearanceEvent::Clock(t1));
            let c = clearance_next(b, ClearanceEvent::Clock(t2));
            let d = clearance_next(c, ClearanceEvent::Clock(t3));
            let e = clearance_next(d, ClearanceEvent::Clicked(clicked));
            let f = clearance_next(e, ClearanceEvent::Clock(t4));
            let due = match wait.last_click {
                Some(at) => nanos(t3) >= at + 1_200_000_000,
                None => true,
            };
            &&& clearance_pending(a) == ClearanceAction::ReadClock
            &&& if nanos(t1) >= wait.timeout_nanos {
                clearance_pending(b) == ClearanceAction::Return
            } else {
                &&& clearance_pending(b) == ClearanceAction::ReadClock
                &&& if nanos(t2) < 6_000_000_000 {
                    paused(wait, c, wait.last_click)
                } else {
                    &&& clearance_pending(c) == ClearanceAction::ReadClock
                    &&& if !due {
                        paused(wait, d, wait.last_click)
                    } else {
                        &&& clearance_pending(d) == ClearanceAction::TryClick
                        &&& if !clicked {
                            paused(wait, e, wait.last_click)
                        } else {
                            &&& clearance_pending(e) == ClearanceAction::ReadClock
                            &&& paused(wait, f, Some(nanos(t4) as u128))
                            &&& f.last_click == Some(nanos(t4) as u128) && nanos(t4) as u128
                                == nanos(t4)
                        }
                    }
                }
            }
        }),
{
    law_time_is_counted_exactly(t1);
    law_time_is_counted_exactly(t2);
    law_time_is_counted_exactly(t3);
    law_time_is_counted_exactly(t4);
    let since = match wait.last_click {
        Some(at) => if nanos(t3) >= at {
            nanos(t3) - at
        } else {
            0
        },
        None => nanos(t3) + 30_000_000_000,
    };
    let whole = since / 1_000_000;
    assert(0 <= whole < 0x1_0000_0000_0000_0000);
    vstd::arithmetic::div_mod::lemma_small_mod(whole as nat, 0x1_0000_0000_0000_0000);
}

/// The whole milliseconds in a number of nanoseconds, as 64 bits hold them.
pub open spec fn held_millis(nanos: int) -> int {
    (nanos / 1_000_000) % 0x1_0000_0000_0000_0000
}

/// A round of a wait with any readings of the clock, also those whose
/// milliseconds 64 bits do not hold: the passive window and the interval
/// between clicks go by the milliseconds that are held, where a click that was
/// never made counts as thirty seconds before the start, and one that is later
/// than the reading as made at the reading.
pub proof fn law_round_of_a_wait_at_any_time(
    wait: ClearanceWait,
    cookies: Option<Vec<RawCookie>>,
    t1: Elapsed,
    t2: Elapsed,
    t3: Elapsed,
)
    requires
        clearance_pending(wait) == ClearanceAction::ReadCookies,
        !shows_clearance(cookies),
        nanos(t1) < wait.timeout_nanos,
    ensures
        ({
            let a = clearance_next(wait, ClearanceEvent::Cookies(cookies));
            let b = clearance_next(a, ClearanceEvent::Clock(t1));
            let c = clearance_next(b, ClearanceEvent::Clock(t2));
            let d = clearance_next(c, ClearanceEvent::Clock(t3));
            let since = match wait.last_click {
                Some(at) => if nanos(t3) >= at {
                    nanos(t3) - at
                } else {
                    0
                },
                None => nanos(t3) + 30_000_000_000,
            };
            if held_millis(nanos(t2)) < 6_000 {
                paused(wait, c, wait.last_click)
            } else {
                &&& clearance_pending(c) == ClearanceAction::ReadClock
                &&& if held_millis(since) < 1_200 {
                    paused(wait, d, wait.last_click)
                } else {
                    clearance_pending(d) == ClearanceAction::TryClick
                }
            }
        }),
{
    law_time_is_counted_exactly(t1);
    law_time_is_counted_exactly(t2);
    law_time_is_counted_exactly(t3);
}

/// The round of `wait` is over: after a pause of 400 ms the cookies are looked
/// at again, with the same time allowed and the given time of the last click.
pub open spec fn paused(wait: ClearanceWait, now: ClearanceWait, last_click: Option<u128>) -> bool {
    let next = clearance_next(now, ClearanceEvent::Slept);
    &&& clearance_pending(now) == ClearanceAction::Sleep(400)
    &&& clearance_pending(next) == ClearanceAction::ReadCookies
    &&& next.last_click == last_click
    &&& next.timeout_nanos == wait.timeout_nanos
}

/// A look that shows the cookie ends the wait, at any time and after any
/// clicks, with a pause of half a second.
pub proof fn law_cookie_settles_the_wait(wait: ClearanceWait, cookies: Option<Vec<RawCookie>>)
    requires
        clearance_pending(wait) == ClearanceAction::ReadCookies,
        shows_clearance(cookies),
    ensures
        ({
            let seen = clearance_next(wait, ClearanceEvent::Cookies(cookies));
            &&& clearance_pending(seen) == ClearanceAction::Sleep(500)
            &&& clearance_pending(clearance_next(seen, ClearanceEvent::Slept))
                == ClearanceAction::Return
        }),
{
}

/// The event is of the kind that answers the action.
pub open spec fn answers_clearance(action: ClearanceAction, event: ClearanceEvent) -> bool {
    match action {
        ClearanceAction::ReadCookies => event is Cookies,
        ClearanceAction::ReadClock => event is Clock,
        ClearanceAction::TryClick => event is Clicked,
        ClearanceAction::Sleep(_) => event is Slept,
        ClearanceAction::Return => false,
    }
}

/// An event that does not answer what was asked changes nothing.
pub proof fn law_unasked_event_leaves_the_wait(wait: ClearanceWait, event: ClearanceEvent)
    requires
        !answers_clearance(clearance_pending(wait), event),
    ensures
        clearance_next(wait, event) == wait,
{
}

/// A string is a token when it is longer than ten bytes; for plain ASCII, ten
/// characters.
pub proof fn law_token_is_longer_than_ten_bytes(text: Seq<char>)
    ensures
        token_like(text) <==> encode_utf8(text).len() > 10,
        is_ascii_chars(text) ==> (token_like(text) <==> text.len() > 10),
{
    if is_ascii_chars(text) {
        is_ascii_chars_encode_utf8(text);
    }
}

/// A wait for a token begins with the clock, and lasts for the seconds given.
pub proof fn law_token_wait_begins_with_the_clock(timeout_seconds: u64)
    ensures
        token_pending(token_start(timeout_seconds)) is ReadClock,
        token_start(timeout_seconds).timeout_nanos == timeout_seconds * 1_000_000_000,
        token_result(token_start(timeout_seconds)) is None,
{
}

/// A round of a wait for a token: past the time allowed it fails; else the page
/// is asked; a string of more than ten bytes is the token, and anything else
/// leads, after half a second, to the next round.
pub proof fn law_round_of_a_token_wait(wait: TokenWait, now: Elapsed, evaluated: Evaluated)
    requires
        token_pending(wait) is ReadClock,
    ensures
        ({
            let a = token_next(wait, TokenEvent::Clock(now));
            let b = token_next(a, TokenEvent::Evaluated(evaluated));
            let c = token_next(b, TokenEvent::Slept);
            if nanos(now) > wait.timeout_nanos {
                &&& token_pending(a) is Return
                &&& token_result(a) == Some(
                    Err::<Seq<char>, _>(ErrorModel::CaptchaFailed("timeout waiting for token"@)),
                )
            } else {
                &&& token_pending(a) matches TokenAction::Evaluate(script) && script@
                    == TOKEN_PROBE_SCRIPT@
                &&& token_result(a) is None
                &&& if evaluated matches Evaluated::Text(text) && encode_utf8(text@).len() > 10 {
                    &&& token_pending(b) is Return
                    &&& token_result(b) == Some(Ok::<_, ErrorModel>(evaluated->Text_0@))
                } else {
                    &&& token_pending(b) == TokenAction::Sleep(500)
                    &&& token_result(b) is None
                    &&& token_pending(c) is ReadClock
                    &&& c.timeout_nanos == wait.timeout_nanos
                }
            }
        }),
{
    law_time_is_counted_exactly(now);
}

/// The event is of the kind that answers the action.
pub open spec fn answers_token(action: TokenAction, event: TokenEvent) -> bool {
    match action {
        TokenAction::ReadClock => event is Clock,
        TokenAction::Evaluate(_) => event is Evaluated,
        TokenAction::Sleep(_) => event is Slept,
        TokenAction::Return => false,
    }
}

/// An event that does not answer what was asked changes nothing.
pub proof fn law_unasked_event_leaves_the_token_wait(wait: TokenWait, event: TokenEvent)
    requires
        !answers_token(token_pending(wait), event),
    ensures
        token_next(wait, event) == wait,
{
}

/// A document at an address that goes on from the page's, and nothing else, is
/// answered with the page in its place, under status 200.
pub proof fn law_documents_of_the_page_are_served(requested: Seq<char>, url: Seq<char>)
    ensures
        route_of(requested, url, ResourceKind::Other) == Route::Continue,
        route_of(requested, url, ResourceKind::Document) == (if exists|rest: Seq<char>|
            requested == #[trigger] (url + rest) {
            Route::Serve(200)
        } else {
            Route::Continue
        }),
{
    if url.is_prefix_of(requested) {
        let rest = requested.skip(url.len() as int);
        assert(requested =~= url + rest);
    }
    if exists|rest: Seq<char>| requested == #[trigger] (url + rest) {
        assert(requested.subrange(0, url.len() as int) =~= url);
    }
    if requested == url {
        assert(requested =~= url + Seq::<char>::empty());
    }
}

/// A template in which no `<site-key>` stands is served as it is.
pub proof fn law_page_without_mark_is_served_as_it_is(template: Seq<char>, site_key: Seq<char>)
    requires
        !occurs_in(template, "<site-key>"@),
    ensures
        served_page(template, site_key) == template,
{
    reveal_strlit("<site-key>");
    law_nothing_to_replace(template, "<site-key>"@, site_key);
}

/// The first `<site-key>` of a template gives way to the site key, and what
/// follows it is served in the same way.
pub proof fn law_mark_gives_way_to_the_site_key(
    front: Seq<char>,
    back: Seq<char>,
    site_key: Seq<char>,
)
    requires
        forall|at: int|
            0 <= at < front.len() ==> !#[trigger] occurs_at(
                front + "<site-key>"@ + back,
                "<site-key>"@,
                at,
            ),
    ensures
        served_page(front + "<site-key>"@ + back, site_key) == front + site_key + served_page(
            back,
            site_key,
        ),
{
    reveal_strlit("<site-key>");
    law_first_occurrence_is_replaced(front, "<site-key>"@, back, site_key);
}

/// The page is asked, and the extractor installed, in just these words.
pub proof fn law_scripts_word_for_word()
    ensures
        TOKEN_PROBE_SCRIPT@ == r#"(function() {
                    if (window.turnstile && typeof window.turnstile.getResponse === 'function') {
                        var t = window.turnstile.getResponse();
                        if (t) return t;
                    }
                    var el = document.querySelector('[name="cf-response"]');
                    return el ? el.value : null;
                })()"#@,
        TURNSTILE_EXTRACTOR_SCRIPT@ == r#"
    (function() {
        let token = null;
        async function waitForToken() {
            while (!token) {
                try { token = window.turnstile.getResponse(); } catch(e) {}
                await new Promise(r => setTimeout(r, 500));
            }
            var c = document.createElement("input");
            c.type = "hidden"; c.name = "cf-response"; c.value = token;
            document.body.appendChild(c);
        }
        waitForToken();
    })();
"#@,
{
}

} // verus!
