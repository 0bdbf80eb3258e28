//! Waiting until the widget of a page gives a token.

use crate::error::{ChaserError, ErrorModel};
use crate::models::Evaluated;
use crate::time::Elapsed;
use vstd::prelude::*;
use vstd::string::*;
use vstd::utf8::encode_utf8;

verus! {

/// Asks the widget for its response, and else the input that the extractor
/// leaves in the page.
pub const TOKEN_PROBE_SCRIPT: &'static str =
    r#"(function() {
                    if (window.turnstile && typeof window.turnstile.getResponse === 'function') {
                        var t = window.turnstile.getResponse();
                        if (t) return t;
                    }
                    var el = document.querySelector('[name="cf-response"]');
                    return el ? el.value : null;
                })()"#;

/// Waits in the page for the widget's response and leaves it in an input.
pub const TURNSTILE_EXTRACTOR_SCRIPT: &'static str =
    r#"
    (function() {
        let token = null;
        async function waitForToken() {
            while (!token) {
                try { token = window.turnstile.getResponse(); } catch(e) {}
                await new Promise(r => setTimeout(r, 500));
            }
            var c = document.createElement("input");
            c.type = "hidden"; c.name = "cf-response"; c.value = token;
            document.body.appendChild(c);
        }
        waitForToken();
    })();
"#;

/// The pause between two looks for the token.
pub const TOKEN_PAUSE_MS: u64 = 500;

/// A token is longer than this, in bytes.
pub const TOKEN_MIN_LEN: usize = 10;

/// What a wait has come to.
#[derive(Debug, Clone, Copy, PartialEq, Eq, Structural)]
pub enum TokenPhase {
    /// The clock is to be read, for the time allowed.
    Deadline,
    /// The page is to be asked for the token.
    Probe,
    /// The pause before the next look.
    Pause,
    /// The time is up.
    Expired,
    /// There is a token.
    Found,
}

/// A wait for a token.
#[derive(Debug)]
pub struct TokenWait {
    pub timeout_nanos: u128,
    pub phase: TokenPhase,
    pub token: Option<String>,
}

/// What a wait asks for.
#[derive(Debug, Clone, Copy)]
pub enum TokenAction {
    /// Read how much time has passed since the wait began.
    ReadClock,
    /// Evaluate the script in the page.
    Evaluate(&'static str),
    /// Sleep for so many milliseconds.
    Sleep(u64),
    /// Nothing more: the wait is over.
    Return,
}

/// What a wait is told.
#[derive(Debug)]
pub enum TokenEvent {
    /// The time since the wait began.
    Clock(Elapsed),
    /// What the script gave.
    Evaluated(Evaluated),
    /// The sleep is over.
    Slept,
}

/// A string is long enough to be a token.
pub open spec fn token_like(text: Seq<char>) -> bool {
    encode_utf8(text).len() > TOKEN_MIN_LEN
}

/// A wait that has just begun.
pub open spec fn token_start(timeout_seconds: u64) -> TokenWait {
    TokenWait {
        timeout_nanos: (timeout_seconds * 1_000_000_000) as u128,
        phase: TokenPhase::Deadline,
        token: None,
    }
}

/// What a wait asks for in a state.
pub open spec fn token_pending(wait: TokenWait) -> TokenAction {
    match wait.phase {
        TokenPhase::Deadline => TokenAction::ReadClock,
        TokenPhase::Probe => TokenAction::Evaluate(TOKEN_PROBE_SCRIPT),
        TokenPhase::Pause => TokenAction::Sleep(TOKEN_PAUSE_MS),
        TokenPhase::Expired => TokenAction::Return,
        TokenPhase::Found => TokenAction::Return,
    }
}

/// The state after an event. An event that answers nothing asked changes nothing.
pub open spec fn token_next(wait: TokenWait, event: TokenEvent) -> TokenWait {
    match (wait.phase, event) {
        (TokenPhase::Deadline, TokenEvent::Clock(now)) => TokenWait {
            phase: if now.total_nanos() > wait.timeout_nanos {
                TokenPhase::Expired
            } else {
                TokenPhase::Probe
            },
            ..wait
        },
        (TokenPhase::Probe, TokenEvent::Evaluated(evaluated)) => match evaluated {
            Evaluated::Text(text) => if token_like(text@) {
                TokenWait { phase: TokenPhase::Found, token: Some(text), ..wait }
            } else {
                TokenWait { phase: TokenPhase::Pause, ..wait }
            },
            _ => TokenWait { phase: TokenPhase::Pause, ..wait },
        },
        (TokenPhase::Pause, TokenEvent::Slept) => TokenWait {
            phase: TokenPhase::Deadline,
            ..wait
        },
        _ => wait,
    }
}

/// What a wait that is over gives: the token, or the error of a wait in vain.
pub open spec fn token_result(wait: TokenWait) -> Option<Result<Seq<char>, ErrorModel>> {
    match (wait.phase, wait.token) {
        (TokenPhase::Found, Some(token)) => Some(Ok(token@)),
        (TokenPhase::Expired, _) => Some(
            Err(ErrorModel::CaptchaFailed("timeout waiting for token"@)),
        ),
        _ => None,
    }
}

/// The state after a sequence of events.
pub open spec fn token_run(wait: TokenWait, events: Seq<TokenEvent>) -> TokenWait
    decreases events.len(),
{
    if events.len() == 0 {
        wait
    } else {
        token_next(token_run(wait, events.drop_last()), events.last())
    }
}

/// Begins to wait, for at most so many seconds, for a token.
pub fn wait_for_turnstile_token(timeout_seconds: u64) -> (wait: TokenWait)
    ensures
        wait == token_start(timeout_seconds),
        wait.timeout_nanos == timeout_seconds * 1_000_000_000,
{
    TokenWait {
        timeout_nanos: timeout_seconds as u128 * 1_000_000_000,
        phase: TokenPhase::Deadline,
        token: None,
    }
}

impl TokenWait {
    /// What the wait asks for now.
    pub fn pending(&self) -> (action: TokenAction)
        ensures
            action == token_pending(*self),
    {
        match self.phase {
            TokenPhase::Deadline => TokenAction::ReadClock,
            TokenPhase::Probe => TokenAction::Evaluate(TOKEN_PROBE_SCRIPT),
            TokenPhase::Pause => TokenAction::Sleep(TOKEN_PAUSE_MS),
            TokenPhase::Expired => TokenAction::Return,
            TokenPhase::Found => TokenAction::Return,
        }
    }

    /// Goes on after an event.
    pub fn step(&mut self, event: TokenEvent)
        ensures
            *final(self) == token_next(*old(self), event),
    {
        match (self.phase, event) {
            (TokenPhase::Deadline, TokenEvent::Clock(now)) => {
                self.phase = if now.as_nanos() > self.timeout_nanos {
                    TokenPhase::Expired
                } else {
                    TokenPhase::Probe
                };
            },
            (TokenPhase::Probe, TokenEvent::Evaluated(evaluated)) => {
                self.phase = TokenPhase::Pause;
                if let Evaluated::Text(text) = evaluated {
                    if text.as_str().as_bytes().len() > TOKEN_MIN_LEN {
                        self.phase = TokenPhase::Found;
                        self.token = Some(text);
                    }
                }
            },
            (TokenPhase::Pause, TokenEvent::Slept) => {
                self.phase = TokenPhase::Deadline;
            },
            _ => {},
        }
    }

    /// What the wait gives, once it is over.
    pub fn result(self) -> (result: Option<Result<String, ChaserError>>)
        ensures
            match result {
                Some(Ok(token)) => token_result(self) == Some(Ok::<_, ErrorModel>(token@)),
                Some(Err(error)) => token_result(self) == Some(Err::<Seq<char>, _>(error@)),
                None => token_result(self) is None,
            },
    {
        match (self.phase, self.token) {
            (TokenPhase::Found, Some(token)) => Some(Ok(token)),
            (TokenPhase::Expired, _) => Some(
                Err(ChaserError::CaptchaFailed("timeout waiting for token".to_owned())),
            ),
            _ => None,
        }
    }
}

/// A clock reading that was asked for came back as later than `nanos`.
pub open spec fn clock_passed(start: TokenWait, events: Seq<TokenEvent>, nanos: int) -> bool {
    exists|k: int|
        0 <= k < events.len() && token_pending(token_run(start, #[trigger] events.take(k)))
            is ReadClock && (events[k] matches TokenEvent::Clock(now) && now.total_nanos() > nanos)
}

/// The page, asked for the token, gave `text`.
pub open spec fn gave(start: TokenWait, events: Seq<TokenEvent>, text: Seq<char>) -> bool {
    exists|k: int|
        0 <= k < events.len() && token_pending(token_run(start, #[trigger] events.take(k)))
            is Evaluate && (events[k] matches TokenEvent::Evaluated(Evaluated::Text(t)) && t@
            == text)
}

proof fn lemma_token_events_grow(
    start: TokenWait,
    events: Seq<TokenEvent>,
    nanos: int,
    text: Seq<char>,
)
    requires
        events.len() > 0,
    ensures
        clock_passed(start, events.drop_last(), nanos) ==> clock_passed(start, events, nanos),
        token_pending(token_run(start, events.drop_last())) is ReadClock && (
        events.last() matches TokenEvent::Clock(now) && now.total_nanos() > nanos) ==> clock_passed(
            start,
            events,
            nanos,
        ),
        gave(start, events.drop_last(), text) ==> gave(start, events, text),
        token_pending(token_run(start, events.drop_last())) is Evaluate && (
        events.last() matches TokenEvent::Evaluated(Evaluated::Text(t)) && t@ == text) ==> gave(
            start,
            events,
            text,
        ),
{
    let before = events.drop_last();
    if clock_passed(start, before, nanos) {
        let k = choose|k: int|
            0 <= k < before.len() && token_pending(token_run(start, #[trigger] before.take(k)))
                is ReadClock && (before[k] matches TokenEvent::Clock(now) && now.total_nanos()
                > nanos);
        assert(before.take(k) =~= events.take(k));
        assert(events[k] == before[k]);
    }
    if gave(start, before, text) {
        let k = choose|k: int|
            0 <= k < before.len() && token_pending(token_run(start, #[trigger] before.take(k)))
                is Evaluate && (before[k] matches TokenEvent::Evaluated(Evaluated::Text(t)) && t@
                == text);
        assert(before.take(k) =~= events.take(k));
        assert(events[k] == before[k]);
    }
    assert(events.take(before.len() as int) =~= before);
    assert(events[before.len() as int] == events.last());
}

/// A wait ends with a string that the page gave when asked and that is long
/// enough to be a token, or, once the clock, read for that purpose, is past
/// the time allowed, with the error of a wait in vain. It gives a result
/// exactly when it asks for nothing more.
pub proof fn law_token_comes_from_the_page(timeout_seconds: u64, events: Seq<TokenEvent>)
    ensures
        ({
            let start = token_start(timeout_seconds);
            let wait = token_run(start, events);
            &&& token_result(wait) is Some <==> token_pending(wait) is Return
            &&& token_result(wait) matches Some(Ok(token)) ==> token_like(token) && gave(
                start,
                events,
                token,
            )
            &&& token_result(wait) matches Some(Err(_)) ==> clock_passed(
                start,
                events,
                timeout_seconds * 1_000_000_000,
            )
            &&& wait.timeout_nanos == timeout_seconds * 1_000_000_000
        }),
    decreases events.len(),
{
    if events.len() > 0 {
        let start = token_start(timeout_seconds);
        law_token_comes_from_the_page(timeout_seconds, events.drop_last());
        let wait = token_run(start, events);
        let text = match wait.token {
            Some(token) => token@,
            None => Seq::empty(),
        };
        lemma_token_events_grow(start, events, timeout_seconds * 1_000_000_000, text);
    }
}

/// A look that gives a string long enough to be a token ends the wait with it.
pub proof fn law_token_ends_the_wait(wait: TokenWait, text: String)
    requires
        token_pending(wait) is Evaluate,
        token_like(text@),
    ensures
        token_result(token_next(wait, TokenEvent::Evaluated(Evaluated::Text(text)))) == Some(
            Ok::<_, ErrorModel>(text@),
        ),
{
}

/// A wait that is over stays over, with the same result.
pub proof fn law_ended_token_wait_stays_ended(wait: TokenWait, event: TokenEvent)
    requires
        token_pending(wait) is Return,
    ensures
        token_next(wait, event) == wait,
{
}

} // verus!
