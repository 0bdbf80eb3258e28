//! What an operation asks for and gives, reply by reply, in every run: stated
//! over what it was begun with and what was replied.

use crate::error::{ChaserError, ErrorModel};
use crate::intercept::ResourceKind;
use crate::model_laws::{keeps, law_session_keeps_every_field};
use crate::models::{Evaluated, ProxyModel, WafSession};
use crate::solver::{
    outcome_model, solve_next, solve_pending, solve_run, solve_start, ActionModel, Operation,
    SolveAction, SolveEvent, SolveModel, SolvePhase, Solved, SolvedModel,
};
use crate::solver_laws::{
    at_start, gives_cookies, law_operation_stays_valid, lemma_outcome, lemma_replied, loading,
    replied, same_request, settled, solve_valid,
};
use crate::token::TURNSTILE_EXTRACTOR_SCRIPT;
use vstd::prelude::*;

verus! {

/// The characters of a name that may be missing.
pub open spec fn name_given(name: Option<String>) -> Option<Seq<char>> {
    match name {
        Some(text) => Some(text@),
        None => None,
    }
}

/// A context that was asked for with this proxy and this freshness is given, by
/// this name or, as the default one, without.
pub open spec fn gives_context(
    proxy: Option<ProxyModel>,
    fresh: bool,
    name: Option<Seq<char>>,
) -> spec_fn(SolveModel, SolveEvent) -> bool {
    |m: SolveModel, e: SolveEvent|
        solve_pending(m) == (ActionModel::CreateContext { proxy, fresh }) && (
        e matches SolveEvent::Context(context) && name_given(context) == name)
}

/// The address that was to be loaded is loaded.
pub open spec fn loads(address: Seq<char>) -> spec_fn(SolveModel, SolveEvent) -> bool {
    |m: SolveModel, e: SolveEvent|
        solve_pending(m) == ActionModel::Navigate(address) && e == SolveEvent::Done
}

/// The name and the password of a proxy that has both.
pub open spec fn login(proxy: Option<ProxyModel>) -> Option<(Seq<char>, Seq<char>)> {
    match proxy {
        Some(p) => if p.username is Some && p.password is Some {
            Some((p.username->0, p.password->0))
        } else {
            None
        },
        None => None,
    }
}

/// The operation asks the page itself for something, or waits for it.
pub open spec fn needs_the_page(action: ActionModel) -> bool {
    ||| action is AwaitClearance
    ||| action is ReadContent
    ||| action is ReadCookies
    ||| action is Evaluate
    ||| action is AwaitToken
}

/// An operation begins with the permit, knows what it was begun with, and has no
/// outcome.
pub proof fn law_operation_begins_as_requested(
    operation: Operation,
    url: Seq<char>,
    proxy: Option<ProxyModel>,
    fresh_context: bool,
    timeout_ms: u64,
    page: Seq<char>,
)
    ensures
        ({
            let m = solve_start(operation, url, proxy, fresh_context, timeout_ms, page);
            &&& m.operation == operation && m.url == url && m.proxy == proxy && m.page == page
            &&& m.fresh_context == fresh_context && m.timeout_ms == timeout_ms
            &&& solve_pending(m) is AcquirePermit
            &&& m.outcome is None && m.context is None
            &&& at_start(m)
        }),
{
}

spec fn placed(phase: SolvePhase) -> bool {
    phase != SolvePhase::Permit && phase != SolvePhase::Context && !settled(phase)
}

proof fn lemma_requests(start: SolveModel, events: Seq<SolveEvent>)
    requires
        at_start(start),
    ensures
        ({
            let m = solve_run(start, events);
            &&& solve_valid(m) && same_request(start, m)
            &&& placed(m.phase) || m.phase == SolvePhase::Dispose || m.context is Some ==> replied(
                start,
                events,
                gives_context(start.proxy, start.fresh_context, m.context),
            )
            &&& (loading(m.phase) && m.phase != SolvePhase::Navigate) || (m.outcome matches Some(
                Ok(_),
            )) ==> replied(start, events, loads(start.url))
        }),
    decreases events.len(),
{
    law_operation_stays_valid(start, events);
    if events.len() > 0 {
        let before = events.drop_last();
        lemma_requests(start, before);
        let m = solve_run(start, events);
        lemma_replied(
            start,
            events,
            gives_context(start.proxy, start.fresh_context, m.context),
        );
        lemma_replied(start, events, loads(start.url));
    }
}

/// Whatever an operation asks for, in any run, is fixed by what it was begun
/// with and by what was replied: the address that is loaded is the one it was
/// given; the context is made with its proxy and its freshness, and the tab is
/// opened in the very context that was given; the proxy is answered with its
/// own name and password; and nothing is asked of a page before it is loaded.
pub proof fn law_every_request_is_fixed(start: SolveModel, events: Seq<SolveEvent>)
    requires
        at_start(start),
    ensures
        match solve_pending(solve_run(start, events)) {
            ActionModel::CreateContext { proxy, fresh } => proxy == start.proxy && fresh
                == start.fresh_context,
            ActionModel::NewPage { within, address } => address == "about:blank"@ && replied(
                start,
                events,
                gives_context(start.proxy, start.fresh_context, within),
            ),
            ActionModel::Authenticate(username, password) => login(start.proxy) == Some(
                (username, password),
            ),
            ActionModel::InstallScript(script) => start.operation == Operation::TurnstileMax
                && script == TURNSTILE_EXTRACTOR_SCRIPT@,
            ActionModel::EnableInterception { pattern, kind } => start.operation
                == Operation::TurnstileMin && pattern == "*"@ && kind == ResourceKind::Document,
            ActionModel::Listen => start.operation == Operation::TurnstileMin,
            ActionModel::StartInterceptor { url, page } => start.operation
                == Operation::TurnstileMin && url == start.url && page == start.page,
            ActionModel::Navigate(address) => address == start.url,
            ActionModel::AwaitClearance(seconds) => {
                ||| start.operation == Operation::Source && seconds == 30
                ||| start.operation == Operation::WafSession && seconds == 90
            },
            ActionModel::ReadContent => start.operation == Operation::Source,
            ActionModel::ReadCookies => start.operation == Operation::WafSession,
            ActionModel::Evaluate(script) => start.operation == Operation::WafSession && script
                == "navigator.userAgent"@,
            ActionModel::AwaitToken(seconds) => (start.operation == Operation::TurnstileMax
                || start.operation == Operation::TurnstileMin) && seconds == 60,
            ActionModel::StopInterception => start.operation == Operation::TurnstileMin,
            ActionModel::DisposeContext { context, timeout_seconds } => start.operation
                == Operation::WafSession && timeout_seconds == 5 && replied(
                start,
                events,
                gives_context(start.proxy, start.fresh_context, Some(context)),
            ),
            ActionModel::AcquirePermit => solve_run(start, events).outcome is None,
            ActionModel::ReleasePermit => solve_run(start, events).outcome is Some,
            ActionModel::Finish => solve_run(start, events).outcome is Some,
        },
        needs_the_page(solve_pending(solve_run(start, events))) ==> replied(
            start,
            events,
            loads(start.url),
        ),
{
    lemma_requests(start, events);
}

/// No operation succeeds without having loaded the address it was begun with, in
/// a context made with its own proxy and freshness.
pub proof fn law_success_has_loaded_the_address(start: SolveModel, events: Seq<SolveEvent>)
    requires
        at_start(start),
        solve_run(start, events).outcome matches Some(Ok(_)),
    ensures
        replied(start, events, loads(start.url)),
        exists|name: Option<Seq<char>>|
            replied(
                start,
                events,
                #[trigger] gives_context(start.proxy, start.fresh_context, name),
            ),
{
    lemma_requests(start, events);
    lemma_loaded_in_context(start, events);
}

proof fn lemma_loaded_in_context(start: SolveModel, events: Seq<SolveEvent>)
    requires
        at_start(start),
        replied(start, events, loads(start.url)),
    ensures
        exists|name: Option<Seq<char>>|
            replied(
                start,
                events,
                #[trigger] gives_context(start.proxy, start.fresh_context, name),
            ),
    decreases events.len(),
{
    lemma_replied(start, events, loads(start.url));
    let before = events.drop_last();
    let m = solve_run(start, before);
    let kind = if loads(start.url)(m, events.last()) {
        lemma_requests(start, before);
        gives_context(start.proxy, start.fresh_context, m.context)
    } else {
        lemma_loaded_in_context(start, before);
        gives_context(
            start.proxy,
            start.fresh_context,
            choose|name: Option<Seq<char>>|
                replied(
                    start,
                    before,
                    #[trigger] gives_context(start.proxy, start.fresh_context, name),
                ),
        )
    };
    lemma_replied(start, events, kind);
}

/// How far along an operation is.
spec fn rank(phase: SolvePhase) -> int {
    match phase {
        SolvePhase::Permit => 0,
        SolvePhase::Context => 1,
        SolvePhase::Page => 2,
        SolvePhase::Auth => 3,
        SolvePhase::Extractor => 4,
        SolvePhase::Interception => 5,
        SolvePhase::Listener => 6,
        SolvePhase::Interceptor => 7,
        SolvePhase::Navigate => 8,
        SolvePhase::Clearance => 9,
        SolvePhase::Content => 10,
        SolvePhase::Cookies => 11,
        SolvePhase::UserAgent => 12,
        SolvePhase::Token => 13,
        SolvePhase::StopInterception => 14,
        SolvePhase::Dispose => 15,
        SolvePhase::Release => 16,
        SolvePhase::Finished => 17,
    }
}

/// What the phase asked for was answered.
pub open spec fn answers_in(phase: SolvePhase) -> spec_fn(SolveModel, SolveEvent) -> bool {
    |m: SolveModel, e: SolveEvent| m.phase == phase && solve_next(m, e) != m
}

/// What was answered is not asked for again: each request of a run is answered
/// once, so the context, the cookies and the token of a run are the only ones.
pub proof fn law_no_request_is_repeated(
    start: SolveModel,
    events: Seq<SolveEvent>,
    phase: SolvePhase,
)
    requires
        at_start(start),
        replied(start, events, answers_in(phase)),
    ensures
        solve_run(start, events).phase != phase,
{
    lemma_progress(start, events, phase);
}

proof fn lemma_progress(start: SolveModel, events: Seq<SolveEvent>, phase: SolvePhase)
    requires
        at_start(start),
    ensures
        replied(start, events, answers_in(phase)) ==> rank(solve_run(start, events).phase) > rank(
            phase,
        ),
    decreases events.len(),
{
    lemma_replied(start, events, answers_in(phase));
    if events.len() > 0 {
        let before = events.drop_last();
        lemma_progress(start, before, phase);
        law_operation_stays_valid(start, before);
    }
}

/// What is asked for first once a tab is open and its proxy is answered.
pub open spec fn first_of_the_page(start: SolveModel) -> ActionModel {
    match start.operation {
        Operation::Source => ActionModel::Navigate(start.url),
        Operation::WafSession => ActionModel::Navigate(start.url),
        Operation::TurnstileMax => ActionModel::InstallScript(TURNSTILE_EXTRACTOR_SCRIPT@),
        Operation::TurnstileMin => ActionModel::EnableInterception {
            pattern: "*"@,
            kind: ResourceKind::Document,
        },
    }
}

/// What is asked for after each thing that was done as asked.
pub proof fn law_next_request(start: SolveModel, events: Seq<SolveEvent>)
    requires
        at_start(start),
    ensures
        ({
            let m = solve_run(start, events);
            let done = solve_next(m, SolveEvent::Done);
            match solve_pending(m) {
                ActionModel::AcquirePermit => solve_pending(done) == (ActionModel::CreateContext {
                    proxy: start.proxy,
                    fresh: start.fresh_context,
                }),
                ActionModel::NewPage { within, address } => solve_pending(done) == (match login(
                    start.proxy,
                ) {
                    Some((username, password)) => ActionModel::Authenticate(username, password),
                    None => first_of_the_page(start),
                }),
                ActionModel::Authenticate(_, _) => solve_pending(done) == first_of_the_page(start),
                ActionModel::InstallScript(_) => solve_pending(done) == ActionModel::Navigate(
                    start.url,
                ),
                ActionModel::EnableInterception { pattern, kind } => solve_pending(done) is Listen,
                ActionModel::Listen => solve_pending(done) == (ActionModel::StartInterceptor {
                    url: start.url,
                    page: start.page,
                }),
                ActionModel::StartInterceptor { url, page } => solve_pending(done)
                    == ActionModel::Navigate(start.url),
                ActionModel::Navigate(_) => solve_pending(done) == (match start.operation {
                    Operation::Source => ActionModel::AwaitClearance(30),
                    Operation::WafSession => ActionModel::AwaitClearance(90),
                    Operation::TurnstileMax => ActionModel::AwaitToken(60),
                    Operation::TurnstileMin => ActionModel::AwaitToken(60),
                }),
                ActionModel::AwaitClearance(_) => if start.operation == Operation::Source {
                    solve_pending(done) is ReadContent
                } else {
                    solve_pending(done) is ReadCookies
                },
                ActionModel::StopInterception => solve_pending(done) is ReleasePermit,
                ActionModel::DisposeContext { context, timeout_seconds } => solve_pending(done)
                    is ReleasePermit,
                ActionModel::ReleasePermit => solve_pending(done) is Finish,
                _ => done == m,
            }
        }),
        solve_next(solve_run(start, events), SolveEvent::Done).outcome == solve_run(
            start,
            events,
        ).outcome,
{
    lemma_requests(start, events);
}

/// Once a context is given, a tab is opened in it and in no other.
pub proof fn law_tab_opens_in_the_context_given(
    start: SolveModel,
    events: Seq<SolveEvent>,
    context: Option<String>,
)
    requires
        at_start(start),
        solve_pending(solve_run(start, events)) is CreateContext,
    ensures
        solve_pending(solve_next(solve_run(start, events), SolveEvent::Context(context))) == (
        ActionModel::NewPage { within: name_given(context), address: "about:blank"@ }),
{
    lemma_requests(start, events);
}

/// The source that was read is what the operation gives.
pub proof fn law_source_read_is_given(
    start: SolveModel,
    events: Seq<SolveEvent>,
    source: String,
)
    requires
        at_start(start),
        solve_pending(solve_run(start, events)) is ReadContent,
    ensures
        ({
            let next = solve_next(solve_run(start, events), SolveEvent::Content(source));
            &&& next.outcome == Some(Ok::<_, ErrorModel>(SolvedModel::Source(source@)))
            &&& solve_pending(next) is ReleasePermit
        }),
{
    lemma_requests(start, events);
}

/// The token that came is what the operation gives; where requests were routed
/// for it, that is stopped first.
pub proof fn law_token_that_came_is_given(
    start: SolveModel,
    events: Seq<SolveEvent>,
    token: String,
)
    requires
        at_start(start),
        solve_pending(solve_run(start, events)) is AwaitToken,
    ensures
        ({
            let next = solve_next(solve_run(start, events), SolveEvent::Token(token));
            &&& next.outcome == Some(Ok::<_, ErrorModel>(SolvedModel::Token(token@)))
            &&& if start.operation == Operation::TurnstileMin {
                solve_pending(next) is StopInterception
            } else {
                solve_pending(next) is ReleasePermit
            }
        }),
{
    lemma_requests(start, events);
}

/// After the cookies the browser is asked for its own name.
pub proof fn law_name_is_asked_for_after_the_cookies(
    start: SolveModel,
    events: Seq<SolveEvent>,
    event: SolveEvent,
)
    requires
        at_start(start),
        solve_pending(solve_run(start, events)) is ReadCookies,
        event is Cookies,
    ensures
        solve_pending(solve_next(solve_run(start, events), event)) == ActionModel::Evaluate(
            "navigator.userAgent"@,
        ),
        replied(
            start,
            events.push(event),
            gives_cookies(event->Cookies_0@),
        ),
        solve_next(solve_run(start, events), event).cookies == event->Cookies_0@,
{
    lemma_requests(start, events);
    assert(events.push(event).drop_last() =~= events);
    lemma_replied(start, events.push(event), gives_cookies(event->Cookies_0@));
}

/// A session, however it is held, that a run gives has the cookies that were
/// replied in it, one for one and field by field, and the name that the browser
/// gave, or an empty one where it gave no text. A context of its own is then
/// disposed of.
pub proof fn law_session_given_keeps_what_was_replied(
    start: SolveModel,
    events: Seq<SolveEvent>,
    evaluated: Evaluated,
    session: WafSession,
)
    requires
        at_start(start),
        solve_pending(solve_run(start, events)) is Evaluate,
        solve_next(solve_run(start, events), SolveEvent::Evaluated(evaluated)).outcome == Some(
            Ok::<_, ErrorModel>(SolvedModel::Session(session@)),
        ),
    ensures
        ({
            let m = solve_run(start, events);
            let next = solve_next(m, SolveEvent::Evaluated(evaluated));
            &&& replied(start, events, gives_cookies(m.cookies))
            &&& session.cookies@.len() == m.cookies.len()
            &&& forall|i: int|
                0 <= i < m.cookies.len() ==> keeps(#[trigger] session.cookies@[i], m.cookies[i])
            &&& session.headers@.len() == 1
            &&& session.headers@[0].name@ == "user-agent"@
            &&& match evaluated {
                Evaluated::Text(text) => session.headers@[0].value@ == text@,
                _ => session.headers@[0].value@.len() == 0,
            }
            &&& if m.context is Some {
                solve_pending(next) is DisposeContext
            } else {
                solve_pending(next) is ReleasePermit
            }
        }),
{
    lemma_requests(start, events);
    lemma_outcome(start, events);
    let m = solve_run(start, events);
    let user_agent = match evaluated {
        Evaluated::Text(text) => text@,
        _ => Seq::empty(),
    };
    law_session_keeps_every_field(session, m.cookies, user_agent);
}

/// A session comes of every name that the browser gives.
pub proof fn law_every_name_completes_the_session(
    start: SolveModel,
    events: Seq<SolveEvent>,
    evaluated: Evaluated,
)
    requires
        at_start(start),
        solve_pending(solve_run(start, events)) is Evaluate,
    ensures
        solve_next(solve_run(start, events), SolveEvent::Evaluated(evaluated)).outcome matches Some(
            Ok(SolvedModel::Session(_)),
        ),
{
    lemma_requests(start, events);
}

/// What follows an outcome: the permit is given back where one was granted, and
/// before that a session's own context is disposed of.
pub open spec fn winds_up(m: SolveModel, next: SolveModel) -> bool {
    if solve_pending(m) is AcquirePermit {
        solve_pending(next) is Finish
    } else if m.operation == Operation::WafSession && m.context is Some {
        solve_pending(next) == (ActionModel::DisposeContext {
            context: m.context->0,
            timeout_seconds: 5,
        })
    } else {
        solve_pending(next) is ReleasePermit
    }
}

/// What the browser refuses becomes an error that says what was asked for.
pub proof fn law_refusal_says_what_was_refused(
    start: SolveModel,
    events: Seq<SolveEvent>,
    words: String,
)
    requires
        at_start(start),
    ensures
        ({
            let m = solve_run(start, events);
            let next = solve_next(m, SolveEvent::BrowserError(words));
            let error = match solve_pending(m) {
                ActionModel::Authenticate(_, _) => Some(
                    ErrorModel::Internal("proxy auth: "@ + words@),
                ),
                ActionModel::InstallScript(_) => Some(ErrorModel::Internal(words@)),
                ActionModel::EnableInterception { pattern, kind } => Some(
                    ErrorModel::Internal("enable interception: "@ + words@),
                ),
                ActionModel::Listen => Some(ErrorModel::Internal("request listener: "@ + words@)),
                ActionModel::Navigate(_) => Some(ErrorModel::NavigationFailed(words@)),
                ActionModel::ReadContent => Some(ErrorModel::Internal(words@)),
                ActionModel::ReadCookies => Some(ErrorModel::CookieExtractionFailed(words@)),
                _ => None,
            };
            match error {
                Some(e) => next.outcome == Some(Err::<SolvedModel, _>(e)) && winds_up(m, next),
                None => next.outcome == m.outcome,
            }
        }),
{
    lemma_requests(start, events);
}

/// A failure of the permit, of the context, of the tab or of the wait for a token
/// is the outcome, as it was told.
pub proof fn law_failure_is_passed_on(
    start: SolveModel,
    events: Seq<SolveEvent>,
    error: ChaserError,
)
    requires
        at_start(start),
    ensures
        ({
            let m = solve_run(start, events);
            let next = solve_next(m, SolveEvent::Failed(error));
            let pending = solve_pending(m);
            if pending is AcquirePermit || pending is CreateContext || pending is NewPage
                || pending is AwaitToken {
                next.outcome == Some(Err::<SolvedModel, _>(error@)) && winds_up(m, next)
            } else {
                next.outcome == m.outcome
            }
        }),
{
    lemma_requests(start, events);
}

/// When its time is up, a session without an outcome fails with its limit; the
/// other operations have no limit and go on.
pub proof fn law_deadline_is_a_sessions_own(start: SolveModel, events: Seq<SolveEvent>)
    requires
        at_start(start),
        solve_run(start, events).outcome is None,
    ensures
        ({
            let m = solve_run(start, events);
            let next = solve_next(m, SolveEvent::DeadlinePassed);
            if start.operation == Operation::WafSession {
                next.outcome == Some(Err::<SolvedModel, _>(ErrorModel::Timeout(start.timeout_ms)))
                    && winds_up(m, next)
            } else {
                next == m
            }
        }),
{
    lemma_requests(start, events);
}

/// Whatever the clean-up comes to, the permit is given back after it, and the
/// outcome is the one that was settled before.
pub proof fn law_permit_is_given_back_after_the_clean_up(
    start: SolveModel,
    events: Seq<SolveEvent>,
    event: SolveEvent,
)
    requires
        at_start(start),
        solve_pending(solve_run(start, events)) is StopInterception || solve_pending(
            solve_run(start, events),
        ) is DisposeContext,
        event is Done || event is Failed || event is BrowserError || event is DeadlinePassed,
    ensures
        solve_pending(solve_next(solve_run(start, events), event)) is ReleasePermit,
        solve_next(solve_run(start, events), event).outcome == solve_run(start, events).outcome,
{
    lemma_requests(start, events);
}

/// The disposal of the context, to be done in five seconds, is finished or given
/// up.
pub open spec fn leaves(context: Seq<char>) -> spec_fn(SolveModel, SolveEvent) -> bool {
    |m: SolveModel, e: SolveEvent|
        solve_pending(m) == (ActionModel::DisposeContext { context, timeout_seconds: 5 }) && (
        e is Done || e is Failed || e is BrowserError || e is DeadlinePassed)
}

proof fn lemma_leaves(start: SolveModel, events: Seq<SolveEvent>, name: Seq<char>)
    requires
        at_start(start),
        start.operation == Operation::WafSession,
        replied(start, events, gives_context(start.proxy, start.fresh_context, Some(name))),
    ensures
        ({
            let m = solve_run(start, events);
            &&& m.context == Some(name)
            &&& m.phase != SolvePhase::Permit && m.phase != SolvePhase::Context
            &&& m.phase == SolvePhase::Release || m.phase == SolvePhase::Finished ==> replied(
                start,
                events,
                leaves(name),
            )
        }),
    decreases events.len(),
{
    let kind = gives_context(start.proxy, start.fresh_context, Some(name));
    lemma_replied(start, events, kind);
    lemma_replied(start, events, leaves(name));
    let before = events.drop_last();
    lemma_requests(start, before);
    lemma_requests(start, events);
    if replied(start, before, kind) {
        lemma_leaves(start, before, name);
    }
}

/// A context with a name of its own that was given to a session is disposed of
/// before the permit is given back, whatever the outcome.
pub proof fn law_context_given_to_a_session_is_left(
    start: SolveModel,
    events: Seq<SolveEvent>,
    name: Seq<char>,
)
    requires
        at_start(start),
        start.operation == Operation::WafSession,
        replied(start, events, gives_context(start.proxy, start.fresh_context, Some(name))),
        solve_pending(solve_run(start, events)) is ReleasePermit || solve_pending(
            solve_run(start, events),
        ) is Finish,
    ensures
        replied(start, events, leaves(name)),
{
    lemma_leaves(start, events, name);
    lemma_requests(start, events);
}

/// The event can answer what is asked for.
pub open spec fn answers_request(operation: Operation, action: ActionModel, event: SolveEvent) -> bool {
    let fails = event is Failed;
    let refuses = event is BrowserError;
    let late = event is DeadlinePassed && operation == Operation::WafSession;
    match action {
        ActionModel::AcquirePermit => event is Done || fails || late,
        ActionModel::CreateContext { proxy, fresh } => event is Context || fails || late,
        ActionModel::NewPage { within, address } => event is Done || fails || late,
        ActionModel::Authenticate(_, _) => event is Done || refuses || late,
        ActionModel::InstallScript(_) => event is Done || refuses || late,
        ActionModel::EnableInterception { pattern, kind } => event is Done || refuses || late,
        ActionModel::Listen => event is Done || refuses || late,
        ActionModel::StartInterceptor { url, page } => event is Done || late,
        ActionModel::Navigate(_) => event is Done || refuses || late,
        ActionModel::AwaitClearance(_) => event is Done || late,
        ActionModel::ReadContent => event is Content || refuses || late,
        ActionModel::ReadCookies => event is Cookies || refuses || late,
        ActionModel::Evaluate(_) => event is Evaluated || late,
        ActionModel::AwaitToken(_) => event is Token || fails || late,
        ActionModel::StopInterception => event is Done || fails || refuses
            || event is DeadlinePassed,
        ActionModel::DisposeContext { context, timeout_seconds } => event is Done || fails
            || refuses || event is DeadlinePassed,
        ActionModel::ReleasePermit => event is Done,
        ActionModel::Finish => false,
    }
}

/// An event that does not answer what is asked for changes nothing.
pub proof fn law_unasked_event_leaves_the_operation(
    start: SolveModel,
    events: Seq<SolveEvent>,
    event: SolveEvent,
)
    requires
        at_start(start),
        !answers_request(
            start.operation,
            solve_pending(solve_run(start, events)),
            event,
        ),
    ensures
        solve_next(solve_run(start, events), event) == solve_run(start, events),
{
    lemma_requests(start, events);
}

/// What an outcome says is what it holds.
pub proof fn law_outcome_says_what_it_holds(outcome: Result<Solved, ChaserError>)
    ensures
        match outcome_model(outcome) {
            Ok(SolvedModel::Source(source)) => outcome matches Ok(Solved::Source(s)) && s@
                == source,
            Ok(SolvedModel::Token(token)) => outcome matches Ok(Solved::Token(t)) && t@ == token,
            Ok(SolvedModel::Session(session)) => outcome matches Ok(Solved::Session(s)) && s@
                == session,
            Err(error) => outcome matches Err(e) && e@ == error,
        },
{
}

/// What a request says is what it holds.
pub proof fn law_request_says_what_it_holds(action: SolveAction)
    ensures
        match action@ {
            ActionModel::AcquirePermit => action is AcquirePermit,
            ActionModel::CreateContext { proxy, fresh } =>
                action matches SolveAction::CreateContext { proxy: p, fresh: f } && f == fresh && (
            match p {
                Some(config) => proxy == Some(config@),
                None => proxy is None,
            }),
            ActionModel::NewPage { within, address } => action matches SolveAction::NewPage {
                within: w,
                address: a,
            } && a@ == address && name_given(w) == within,
            ActionModel::Authenticate(username, password) =>
                action matches SolveAction::Authenticate(c) && c.username@ == username
                && c.password@ == password,
            ActionModel::InstallScript(script) => action matches SolveAction::InstallScript(s) && s@
                == script,
            ActionModel::EnableInterception { pattern, kind } =>
                action matches SolveAction::EnableInterception { pattern: p, kind: k } && p@
                == pattern && k == kind,
            ActionModel::Listen => action is Listen,
            ActionModel::StartInterceptor { url, page } =>
                action matches SolveAction::StartInterceptor { url: u, page: p } && u@ == url && p@
                == page,
            ActionModel::Navigate(address) => action matches SolveAction::Navigate(a) && a@
                == address,
            ActionModel::AwaitClearance(seconds) => action == SolveAction::AwaitClearance(seconds),
            ActionModel::ReadContent => action is ReadContent,
            ActionModel::ReadCookies => action is ReadCookies,
            ActionModel::Evaluate(script) => action matches SolveAction::Evaluate(s) && s@
                == script,
            ActionModel::AwaitToken(seconds) => action == SolveAction::AwaitToken(seconds),
            ActionModel::StopInterception => action is StopInterception,
            ActionModel::DisposeContext { context, timeout_seconds } =>
                action matches SolveAction::DisposeContext { context: c, timeout_seconds: t } && c@
                == context && t == timeout_seconds,
            ActionModel::ReleasePermit => action is ReleasePermit,
            ActionModel::Finish => action is Finish,
        },
{
}

} // verus!
