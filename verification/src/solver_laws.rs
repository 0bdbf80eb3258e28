//! What holds of every operation, whatever the browser replies.
//!
//! An event can come that answers nothing asked. So the laws speak of replies:
//! of events together with the state in which they were given.

use crate::error::ErrorModel;
use crate::models::{
    chars_if_any, credentials_of, session_of, text_or_empty, Evaluated, ProxyModel, RawCookie,
    SessionModel,
};
use crate::solver::{
    after_auth, can_fail, cleaning_up, concluded, refusal, solve_next, solve_pending, solve_run,
    solve_start, ActionModel, Operation, SolveEvent, SolveModel, SolvePhase, SolvedModel,
    DISPOSE_SECS,
};
use vstd::prelude::*;

verus! {

/// The outcome is settled in the phase.
pub open spec fn settled(phase: SolvePhase) -> bool {
    cleaning_up(phase) || phase == SolvePhase::Release || phase == SolvePhase::Finished
}

/// The state of an operation fits its phase.
pub open spec fn solve_valid(m: SolveModel) -> bool {
    &&& m.outcome is Some <==> settled(m.phase)
    &&& m.phase == SolvePhase::Dispose ==> m.operation == Operation::WafSession && m.context is Some
    &&& m.phase == SolvePhase::StopInterception ==> m.operation == Operation::TurnstileMin
    &&& m.phase == SolvePhase::Auth ==> credentials_of(m.proxy) is Some
    &&& m.phase == SolvePhase::Permit || m.phase == SolvePhase::Context ==> m.context is None
    &&& m.phase == SolvePhase::Extractor ==> m.operation == Operation::TurnstileMax
    &&& m.phase == SolvePhase::Interception || m.phase == SolvePhase::Listener || m.phase
        == SolvePhase::Interceptor ==> m.operation == Operation::TurnstileMin
    &&& m.phase == SolvePhase::Cookies || m.phase == SolvePhase::UserAgent ==> m.operation
        == Operation::WafSession
    &&& m.phase == SolvePhase::Content ==> m.operation == Operation::Source
    &&& m.phase == SolvePhase::Clearance ==> m.operation == Operation::Source || m.operation
        == Operation::WafSession
    &&& m.phase == SolvePhase::Token ==> m.operation == Operation::TurnstileMax || m.operation
        == Operation::TurnstileMin
}

/// What was asked for stays what is asked for.
pub open spec fn same_request(m: SolveModel, n: SolveModel) -> bool {
    &&& m.operation == n.operation
    &&& m.url == n.url
    &&& m.proxy == n.proxy
    &&& m.fresh_context == n.fresh_context
    &&& m.timeout_ms == n.timeout_ms
    &&& m.page == n.page
}

/// A state in which nothing has happened yet.
pub open spec fn at_start(m: SolveModel) -> bool {
    m == solve_start(m.operation, m.url, m.proxy, m.fresh_context, m.timeout_ms, m.page)
}

/// One of the replies of a run is of the kind: an event, and the state in
/// which it was given.
pub open spec fn replied(
    start: SolveModel,
    events: Seq<SolveEvent>,
    kind: spec_fn(SolveModel, SolveEvent) -> bool,
) -> bool {
    exists|k: int|
        0 <= k < events.len() && kind(solve_run(start, #[trigger] events.take(k)), events[k])
}

/// The permit that was asked for is granted.
pub open spec fn grants_permit() -> spec_fn(SolveModel, SolveEvent) -> bool {
    |m: SolveModel, e: SolveEvent|
        solve_pending(m) is AcquirePermit && m.phase == SolvePhase::Permit && e == SolveEvent::Done
}

/// The permit is given back, as asked.
pub open spec fn releases_permit() -> spec_fn(SolveModel, SolveEvent) -> bool {
    |m: SolveModel, e: SolveEvent| solve_pending(m) is ReleasePermit && e == SolveEvent::Done
}

/// The context that was asked for is made, and has a name of its own.
pub open spec fn makes_context() -> spec_fn(SolveModel, SolveEvent) -> bool {
    |m: SolveModel, e: SolveEvent|
        solve_pending(m) is CreateContext && (e matches SolveEvent::Context(context)
            && context is Some)
}

/// The disposal of `context` that was asked for is finished or given up.
pub open spec fn ends_disposal_of(context: Seq<char>) -> spec_fn(SolveModel, SolveEvent) -> bool {
    |m: SolveModel, e: SolveEvent|
        solve_pending(m) == (ActionModel::DisposeContext { context, timeout_seconds: DISPOSE_SECS })
            && (e is Done || e is Failed || e is BrowserError || e is DeadlinePassed)
}

/// A disposal that was asked for is finished or given up.
pub open spec fn ends_disposal() -> spec_fn(SolveModel, SolveEvent) -> bool {
    |m: SolveModel, e: SolveEvent|
        solve_pending(m) is DisposeContext && (e is Done || e is Failed || e is BrowserError
            || e is DeadlinePassed)
}

/// What the phase asks for is done.
pub open spec fn completes(phase: SolvePhase) -> spec_fn(SolveModel, SolveEvent) -> bool {
    |m: SolveModel, e: SolveEvent| m.phase == phase && e == SolveEvent::Done
}

/// The source that was asked for is `source`.
pub open spec fn gives_source(source: Seq<char>) -> spec_fn(SolveModel, SolveEvent) -> bool {
    |m: SolveModel, e: SolveEvent|
        solve_pending(m) is ReadContent && (e matches SolveEvent::Content(s) && s@ == source)
}

/// The token that was waited for is `token`.
pub open spec fn gives_token(token: Seq<char>) -> spec_fn(SolveModel, SolveEvent) -> bool {
    |m: SolveModel, e: SolveEvent|
        solve_pending(m) is AwaitToken && (e matches SolveEvent::Token(t) && t@ == token)
}

/// The cookies that were asked for are `cookies`.
pub open spec fn gives_cookies(cookies: Seq<RawCookie>) -> spec_fn(SolveModel, SolveEvent) -> bool {
    |m: SolveModel, e: SolveEvent|
        solve_pending(m) is ReadCookies && (e matches SolveEvent::Cookies(c) && c@ == cookies)
}

/// The name that the browser was asked for makes `session` of `cookies`.
pub open spec fn completes_session(cookies: Seq<RawCookie>, session: SessionModel) -> spec_fn(
    SolveModel,
    SolveEvent,
) -> bool {
    |m: SolveModel, e: SolveEvent|
        solve_pending(m) is Evaluate && (e matches SolveEvent::Evaluated(evaluated) && session
            == session_of(cookies, text_or_empty(evaluated)))
}

/// What was asked for fails with `error`, or the time is up for a session.
pub open spec fn fails_with(error: ErrorModel) -> spec_fn(SolveModel, SolveEvent) -> bool {
    |m: SolveModel, e: SolveEvent|
        !settled(m.phase) && {
            ||| e matches SolveEvent::Failed(reason) && can_fail(m.phase) && reason@ == error
            ||| e matches SolveEvent::BrowserError(message) && refusal(m.phase, message@) == Some(
                error,
            )
            ||| e is DeadlinePassed && m.operation == Operation::WafSession && error
                == ErrorModel::Timeout(m.timeout_ms)
        }
}

/// The replies of a run are those of all but its last event, and that event.
pub proof fn lemma_replied(
    start: SolveModel,
    events: Seq<SolveEvent>,
    kind: spec_fn(SolveModel, SolveEvent) -> bool,
)
    ensures
        events.len() == 0 ==> !replied(start, events, kind),
        events.len() > 0 ==> (replied(start, events, kind) <==> replied(
            start,
            events.drop_last(),
            kind,
        ) || kind(solve_run(start, events.drop_last()), events.last())),
{
    if events.len() > 0 {
        let before = events.drop_last();
        assert(events.take(before.len() as int) =~= before);
        assert(events[before.len() as int] == events.last());
        if replied(start, before, kind) {
            let k = choose|k: int|
                0 <= k < before.len() && kind(
                    solve_run(start, #[trigger] before.take(k)),
                    before[k],
                );
            assert(before.take(k) =~= events.take(k));
            assert(events[k] == before[k]);
        }
        if replied(start, events, kind) {
            let k = choose|k: int|
                0 <= k < events.len() && kind(
                    solve_run(start, #[trigger] events.take(k)),
                    events[k],
                );
            if k < before.len() {
                assert(before.take(k) =~= events.take(k));
                assert(events[k] == before[k]);
            }
        }
    }
}

/// An operation is valid at every point, and stays the same operation.
pub proof fn law_operation_stays_valid(start: SolveModel, events: Seq<SolveEvent>)
    requires
        at_start(start),
    ensures
        solve_valid(solve_run(start, events)),
        same_request(start, solve_run(start, events)),
    decreases events.len(),
{
    if events.len() > 0 {
        law_operation_stays_valid(start, events.drop_last());
    }
}

/// An operation has an outcome by the time it asks for nothing more.
pub proof fn law_finished_operation_has_outcome(start: SolveModel, events: Seq<SolveEvent>)
    requires
        at_start(start),
        solve_pending(solve_run(start, events)) is Finish,
    ensures
        solve_run(start, events).outcome is Some,
        solve_run(start, events).phase == SolvePhase::Finished,
{
    law_operation_stays_valid(start, events);
}

/// Once an outcome is settled, nothing changes it. In particular a failed or
/// late clean-up does not.
pub proof fn law_settled_outcome_stays(start: SolveModel, events: Seq<SolveEvent>, event: SolveEvent)
    requires
        at_start(start),
        solve_run(start, events).outcome is Some,
    ensures
        solve_next(solve_run(start, events), event).outcome == solve_run(start, events).outcome,
{
    law_operation_stays_valid(start, events);
}

/// Whatever clean-up comes to, only the permit has to be given back after it.
pub proof fn law_clean_up_is_not_repeated(m: SolveModel, event: SolveEvent)
    requires
        cleaning_up(m.phase),
        event is Done || event is Failed || event is BrowserError || event is DeadlinePassed,
    ensures
        solve_next(m, event) == (SolveModel { phase: SolvePhase::Release, ..m }),
        solve_next(solve_next(m, event), SolveEvent::Done) == (SolveModel {
            phase: SolvePhase::Finished,
            ..m
        }),
{
}

proof fn lemma_permit(start: SolveModel, events: Seq<SolveEvent>)
    requires
        at_start(start),
    ensures
        ({
            let phase = solve_run(start, events).phase;
            let granted = replied(start, events, grants_permit());
            let released = replied(start, events, releases_permit());
            &&& phase == SolvePhase::Permit ==> !granted && !released
            &&& phase != SolvePhase::Permit && phase != SolvePhase::Finished ==> granted
                && !released
            &&& phase == SolvePhase::Finished ==> granted == released
        }),
    decreases events.len(),
{
    lemma_replied(start, events, grants_permit());
    lemma_replied(start, events, releases_permit());
    if events.len() > 0 {
        lemma_permit(start, events.drop_last());
        law_operation_stays_valid(start, events.drop_last());
    }
}

/// A context is asked for only after the permit was granted. The same holds of
/// everything else that is asked of the browser, and none of it is asked for
/// after the permit was given back.
pub proof fn law_context_is_asked_for_under_a_permit(start: SolveModel, events: Seq<SolveEvent>)
    requires
        at_start(start),
    ensures
        solve_pending(solve_run(start, events)) is CreateContext ==> exists|k: int|
            0 <= k < events.len() && solve_run(start, #[trigger] events.take(k)).phase
                == SolvePhase::Permit && events[k] == SolveEvent::Done,
        ({
            let pending = solve_pending(solve_run(start, events));
            pending is AcquirePermit || pending is Finish || permit_held(start, events)
        }),
{
    lemma_permit(start, events);
    law_operation_stays_valid(start, events);
    if solve_pending(solve_run(start, events)) is CreateContext {
        let k = choose|k: int|
            0 <= k < events.len() && grants_permit()(
                solve_run(start, #[trigger] events.take(k)),
                events[k],
            );
        assert(solve_run(start, events.take(k)).phase == SolvePhase::Permit);
    }
}

/// A permit that was granted has been given back by the time the operation
/// asks for nothing more.
pub proof fn law_permit_is_given_back(start: SolveModel, events: Seq<SolveEvent>)
    requires
        at_start(start),
        solve_pending(solve_run(start, events)) is Finish,
    ensures
        replied(start, events, grants_permit()) == replied(start, events, releases_permit()),
{
    lemma_permit(start, events);
    law_operation_stays_valid(start, events);
}

proof fn lemma_context(start: SolveModel, events: Seq<SolveEvent>)
    requires
        at_start(start),
    ensures
        ({
            let m = solve_run(start, events);
            &&& replied(start, events, makes_context()) <==> m.context is Some
            &&& m.operation == Operation::WafSession && (m.phase == SolvePhase::Release || m.phase
                == SolvePhase::Finished) ==> (m.context matches Some(context) ==> replied(
                start,
                events,
                ends_disposal_of(context),
            ) && replied(start, events, ends_disposal()))
        }),
    decreases events.len(),
{
    lemma_replied(start, events, makes_context());
    if events.len() > 0 {
        let before = events.drop_last();
        lemma_context(start, before);
        law_operation_stays_valid(start, before);
        law_operation_stays_valid(start, events);
        lemma_replied(start, events, ends_disposal());
        if let Some(context) = solve_run(start, events).context {
            lemma_replied(start, events, ends_disposal_of(context));
        }
    }
}

/// A session that only has its permit to give back, or nothing more to do,
/// has asked for the disposal of the context that was made for it, and that
/// was finished or given up, whether the session succeeded, failed or ran out
/// of time.
pub proof fn law_session_disposes_of_its_context(start: SolveModel, events: Seq<SolveEvent>)
    requires
        at_start(start),
        start.operation == Operation::WafSession,
    ensures
        ({
            let m = solve_run(start, events);
            m.phase == SolvePhase::Release || m.phase == SolvePhase::Finished ==> (
            m.context matches Some(context) ==> replied(start, events, ends_disposal_of(context)))
        }),
{
    lemma_context(start, events);
    law_operation_stays_valid(start, events);
}

/// A permit is held: granted, and not given back.
pub open spec fn permit_held(start: SolveModel, events: Seq<SolveEvent>) -> bool {
    replied(start, events, grants_permit()) && !replied(start, events, releases_permit())
}

/// A context is in use: being made, or made and its disposal not ended.
pub open spec fn context_in_use(start: SolveModel, events: Seq<SolveEvent>) -> bool {
    ||| solve_pending(solve_run(start, events)) is CreateContext
    ||| replied(start, events, makes_context()) && !replied(start, events, ends_disposal())
}

/// A session holds its permit for as long as its context is in use: from
/// before it is asked for until its disposal was finished or given up.
pub proof fn law_permit_outlasts_the_context(start: SolveModel, events: Seq<SolveEvent>)
    requires
        at_start(start),
        start.operation == Operation::WafSession,
    ensures
        context_in_use(start, events) ==> permit_held(start, events),
{
    lemma_permit(start, events);
    lemma_context(start, events);
    law_operation_stays_valid(start, events);
}

/// How many of the runs satisfy `p`.
pub open spec fn how_many(
    runs: Seq<(SolveModel, Seq<SolveEvent>)>,
    p: spec_fn(SolveModel, Seq<SolveEvent>) -> bool,
) -> nat
    decreases runs.len(),
{
    if runs.len() == 0 {
        0
    } else {
        how_many(runs.drop_last(), p) + (if p(runs.last().0, runs.last().1) {
            1nat
        } else {
            0
        })
    }
}

/// The contexts in use by any number of sessions, each at any point of its
/// run, never outnumber the permits they hold: a limit on permits is a limit
/// on contexts.
pub proof fn law_contexts_never_outnumber_permits(runs: Seq<(SolveModel, Seq<SolveEvent>)>)
    requires
        forall|i: int|
            0 <= i < runs.len() ==> at_start((#[trigger] runs[i]).0) && runs[i].0.operation
                == Operation::WafSession,
    ensures
        how_many(runs, |start: SolveModel, events: Seq<SolveEvent>| context_in_use(start, events))
            <= how_many(
            runs,
            |start: SolveModel, events: Seq<SolveEvent>| permit_held(start, events),
        ),
    decreases runs.len(),
{
    if runs.len() > 0 {
        let others = runs.drop_last();
        assert forall|i: int| 0 <= i < others.len() implies at_start((#[trigger] others[i]).0)
            && others[i].0.operation == Operation::WafSession by {
            assert(others[i] == runs[i]);
        }
        law_contexts_never_outnumber_permits(others);
        assert(runs[runs.len() - 1] == runs.last());
        law_permit_outlasts_the_context(runs.last().0, runs.last().1);
    }
}

/// The other operations never ask for a disposal.
pub proof fn law_only_sessions_dispose(start: SolveModel, events: Seq<SolveEvent>)
    requires
        at_start(start),
        start.operation != Operation::WafSession,
    ensures
        !(solve_pending(solve_run(start, events)) is DisposeContext),
{
    law_operation_stays_valid(start, events);
}

/// A session that is not settled when its time is up fails with its time limit.
pub proof fn law_deadline_settles_a_session(start: SolveModel, events: Seq<SolveEvent>)
    requires
        at_start(start),
        start.operation == Operation::WafSession,
        solve_run(start, events).outcome is None,
    ensures
        solve_next(solve_run(start, events), SolveEvent::DeadlinePassed).outcome == Some(
            Err::<SolvedModel, _>(ErrorModel::Timeout(start.timeout_ms)),
        ),
{
    law_operation_stays_valid(start, events);
}

/// The first failure of what is pending settles the operation with that error.
pub proof fn law_first_failure_settles(
    start: SolveModel,
    events: Seq<SolveEvent>,
    event: SolveEvent,
    error: ErrorModel,
)
    requires
        at_start(start),
        fails_with(error)(solve_run(start, events), event),
    ensures
        solve_next(solve_run(start, events), event) == concluded(
            solve_run(start, events),
            Err(error),
        ),
{
}

/// An outcome is never made up. A source, a token or the cookies and the name
/// in a session are what was replied when they were asked for, and an error is
/// that of something asked for that failed, or of a deadline that passed.
pub proof fn law_outcome_is_what_was_replied(start: SolveModel, events: Seq<SolveEvent>)
    requires
        at_start(start),
    ensures
        ({
            let m = solve_run(start, events);
            match m.outcome {
                Some(Ok(SolvedModel::Source(source))) => start.operation == Operation::Source
                    && replied(start, events, gives_source(source)),
                Some(Ok(SolvedModel::Token(token))) => (start.operation == Operation::TurnstileMax
                    || start.operation == Operation::TurnstileMin) && replied(
                    start,
                    events,
                    gives_token(token),
                ),
                Some(Ok(SolvedModel::Session(session))) => start.operation == Operation::WafSession
                    && replied(start, events, gives_cookies(m.cookies)) && replied(
                    start,
                    events,
                    completes_session(m.cookies, session),
                ),
                Some(Err(error)) => replied(start, events, fails_with(error)),
                None => true,
            }
        }),
{
    lemma_outcome(start, events);
}

/// Where an outcome, and the cookies held while the browser is asked for its
/// name, come from.
pub proof fn lemma_outcome(start: SolveModel, events: Seq<SolveEvent>)
    requires
        at_start(start),
    ensures
        ({
            let m = solve_run(start, events);
            &&& m.phase == SolvePhase::UserAgent ==> replied(
                start,
                events,
                gives_cookies(m.cookies),
            )
            &&& match m.outcome {
                Some(Ok(SolvedModel::Source(source))) => start.operation == Operation::Source
                    && replied(start, events, gives_source(source)),
                Some(Ok(SolvedModel::Token(token))) => (start.operation == Operation::TurnstileMax
                    || start.operation == Operation::TurnstileMin) && replied(
                    start,
                    events,
                    gives_token(token),
                ),
                Some(Ok(SolvedModel::Session(session))) => start.operation == Operation::WafSession
                    && replied(start, events, gives_cookies(m.cookies)) && replied(
                    start,
                    events,
                    completes_session(m.cookies, session),
                ),
                Some(Err(error)) => replied(start, events, fails_with(error)),
                None => true,
            }
        }),
    decreases events.len(),
{
    if events.len() > 0 {
        let before = events.drop_last();
        lemma_outcome(start, before);
        law_operation_stays_valid(start, before);
        let m = solve_run(start, events);
        lemma_replied(start, events, gives_cookies(m.cookies));
        match m.outcome {
            Some(Ok(SolvedModel::Source(source))) => {
                lemma_replied(start, events, gives_source(source));
            },
            Some(Ok(SolvedModel::Token(token))) => {
                lemma_replied(start, events, gives_token(token));
            },
            Some(Ok(SolvedModel::Session(session))) => {
                lemma_replied(start, events, completes_session(m.cookies, session));
            },
            Some(Err(error)) => {
                lemma_replied(start, events, fails_with(error));
            },
            None => {},
        }
    }
}

/// Nobody authenticates unless the proxy has both a name and a password, and
/// then with these.
pub proof fn law_authenticates_with_the_proxys_own(start: SolveModel, events: Seq<SolveEvent>)
    requires
        at_start(start),
    ensures
        solve_pending(solve_run(start, events)) matches ActionModel::Authenticate(
            username,
            password,
        ) ==> credentials_of(start.proxy) == Some((username, password)),
{
    law_operation_stays_valid(start, events);
}

/// The address is being loaded or is loaded, and the outcome is not settled.
pub open spec fn loading(phase: SolvePhase) -> bool {
    ||| phase == SolvePhase::Navigate
    ||| phase == SolvePhase::Clearance
    ||| phase == SolvePhase::Content
    ||| phase == SolvePhase::Cookies
    ||| phase == SolvePhase::UserAgent
    ||| phase == SolvePhase::Token
}

/// The page is being prepared for the load.
spec fn preparing(phase: SolvePhase) -> bool {
    ||| phase == SolvePhase::Extractor
    ||| phase == SolvePhase::Interception
    ||| phase == SolvePhase::Listener
    ||| phase == SolvePhase::Interceptor
}

/// Nothing is loaded before the proxy was answered where it has to be, before
/// the extractor was installed for a token of the full page, and before paused
/// requests were routed for one of a served page; and neither the source nor
/// the cookies are read before the wait for clearance was over.
pub proof fn law_page_is_prepared_before_it_is_loaded(start: SolveModel, events: Seq<SolveEvent>)
    requires
        at_start(start),
    ensures
        ({
            let phase = solve_run(start, events).phase;
            &&& loading(phase) && credentials_of(start.proxy) is Some ==> replied(
                start,
                events,
                completes(SolvePhase::Auth),
            )
            &&& loading(phase) && start.operation == Operation::TurnstileMax ==> replied(
                start,
                events,
                completes(SolvePhase::Extractor),
            )
            &&& loading(phase) && start.operation == Operation::TurnstileMin ==> replied(
                start,
                events,
                completes(SolvePhase::Interceptor),
            )
            &&& phase == SolvePhase::Content || phase == SolvePhase::Cookies || phase
                == SolvePhase::UserAgent ==> replied(
                start,
                events,
                completes(SolvePhase::Clearance),
            )
        }),
{
    lemma_prepared(start, events);
}

proof fn lemma_prepared(start: SolveModel, events: Seq<SolveEvent>)
    requires
        at_start(start),
    ensures
        ({
            let phase = solve_run(start, events).phase;
            &&& (loading(phase) || preparing(phase)) && credentials_of(start.proxy) is Some
                ==> replied(start, events, completes(SolvePhase::Auth))
            &&& loading(phase) && start.operation == Operation::TurnstileMax ==> replied(
                start,
                events,
                completes(SolvePhase::Extractor),
            )
            &&& loading(phase) && start.operation == Operation::TurnstileMin ==> replied(
                start,
                events,
                completes(SolvePhase::Interceptor),
            )
            &&& phase == SolvePhase::Content || phase == SolvePhase::Cookies || phase
                == SolvePhase::UserAgent ==> replied(
                start,
                events,
                completes(SolvePhase::Clearance),
            )
        }),
    decreases events.len(),
{
    if events.len() > 0 {
        lemma_prepared(start, events.drop_last());
        law_operation_stays_valid(start, events.drop_last());
        lemma_replied(start, events, completes(SolvePhase::Auth));
        lemma_replied(start, events, completes(SolvePhase::Extractor));
        lemma_replied(start, events, completes(SolvePhase::Interceptor));
        lemma_replied(start, events, completes(SolvePhase::Clearance));
    }
}

proof fn lemma_run_push(m: SolveModel, events: Seq<SolveEvent>, event: SolveEvent)
    ensures
        solve_run(m, events.push(event)) == solve_next(solve_run(m, events), event),
{
    assert(events.push(event).drop_last() =~= events);
}

/// The replies up to an open tab that the proxy lets through, all favourable.
pub open spec fn opening(proxy: Option<ProxyModel>, context: Option<String>) -> Seq<SolveEvent> {
    let opened = Seq::<SolveEvent>::empty().push(SolveEvent::Done).push(
        SolveEvent::Context(context),
    ).push(SolveEvent::Done);
    if credentials_of(proxy) is Some {
        opened.push(SolveEvent::Done)
    } else {
        opened
    }
}

proof fn lemma_opening(start: SolveModel, context: Option<String>)
    requires
        at_start(start),
    ensures
        solve_run(start, opening(start.proxy, context)) == (SolveModel {
            phase: after_auth(start.operation),
            context: chars_if_any(context),
            ..start
        }),
{
    let none = Seq::<SolveEvent>::empty();
    let permitted = none.push(SolveEvent::Done);
    let placed = permitted.push(SolveEvent::Context(context));
    let opened = placed.push(SolveEvent::Done);
    lemma_run_push(start, none, SolveEvent::Done);
    lemma_run_push(start, permitted, SolveEvent::Context(context));
    lemma_run_push(start, placed, SolveEvent::Done);
    lemma_run_push(start, opened, SolveEvent::Done);
}

/// Where everything succeeds, the source of the page is what the browser read
/// after the wait for clearance.
pub proof fn law_source_is_what_was_read(
    start: SolveModel,
    context: Option<String>,
    source: String,
)
    requires
        at_start(start),
        start.operation == Operation::Source,
    ensures
        ({
            let end = solve_run(
                start,
                opening(start.proxy, context).push(SolveEvent::Done).push(SolveEvent::Done).push(
                    SolveEvent::Content(source),
                ),
            );
            &&& solve_pending(end) is ReleasePermit
            &&& end.outcome == Some(Ok::<_, ErrorModel>(SolvedModel::Source(source@)))
        }),
{
    let a = opening(start.proxy, context);
    let b = a.push(SolveEvent::Done);
    let c = b.push(SolveEvent::Done);
    lemma_opening(start, context);
    lemma_run_push(start, a, SolveEvent::Done);
    lemma_run_push(start, b, SolveEvent::Done);
    lemma_run_push(start, c, SolveEvent::Content(source));
}

/// Where everything succeeds, a session holds the cookies that the browser
/// reported and its name, empty where it gave none; a context of its own is
/// disposed of after that.
pub proof fn law_session_holds_what_was_reported(
    start: SolveModel,
    context: Option<String>,
    cookies: Vec<RawCookie>,
    evaluated: Evaluated,
)
    requires
        at_start(start),
        start.operation == Operation::WafSession,
    ensures
        ({
            let end = solve_run(
                start,
                opening(start.proxy, context).push(SolveEvent::Done).push(SolveEvent::Done).push(
                    SolveEvent::Cookies(cookies),
                ).push(SolveEvent::Evaluated(evaluated)),
            );
            &&& end.phase == (if context is Some {
                SolvePhase::Dispose
            } else {
                SolvePhase::Release
            })
            &&& end.outcome == Some(
                Ok::<_, ErrorModel>(
                    SolvedModel::Session(session_of(cookies@, text_or_empty(evaluated))),
                ),
            )
        }),
{
    let a = opening(start.proxy, context);
    let b = a.push(SolveEvent::Done);
    let c = b.push(SolveEvent::Done);
    let d = c.push(SolveEvent::Cookies(cookies));
    lemma_opening(start, context);
    lemma_run_push(start, a, SolveEvent::Done);
    lemma_run_push(start, b, SolveEvent::Done);
    lemma_run_push(start, c, SolveEvent::Cookies(cookies));
    lemma_run_push(start, d, SolveEvent::Evaluated(evaluated));
}

/// Where everything succeeds, the token of a fully loaded page is the one that
/// the page gave.
pub proof fn law_full_page_token_is_the_pages(
    start: SolveModel,
    context: Option<String>,
    token: String,
)
    requires
        at_start(start),
        start.operation == Operation::TurnstileMax,
    ensures
        ({
            let end = solve_run(
                start,
                opening(start.proxy, context).push(SolveEvent::Done).push(SolveEvent::Done).push(
                    SolveEvent::Token(token),
                ),
            );
            &&& solve_pending(end) is ReleasePermit
            &&& end.outcome == Some(Ok::<_, ErrorModel>(SolvedModel::Token(token@)))
        }),
{
    let a = opening(start.proxy, context);
    let b = a.push(SolveEvent::Done);
    let c = b.push(SolveEvent::Done);
    lemma_opening(start, context);
    lemma_run_push(start, a, SolveEvent::Done);
    lemma_run_push(start, b, SolveEvent::Done);
    lemma_run_push(start, c, SolveEvent::Token(token));
}

/// Where everything succeeds, the token of a page served in place of another
/// is the one that it gave, and interception is stopped before it is handed
/// out, even where stopping fails.
pub proof fn law_served_page_token_is_the_pages(
    start: SolveModel,
    context: Option<String>,
    token: String,
    stopped: SolveEvent,
)
    requires
        at_start(start),
        start.operation == Operation::TurnstileMin,
        stopped is Done || stopped is BrowserError,
    ensures
        ({
            let got = solve_run(
                start,
                opening(start.proxy, context).push(SolveEvent::Done).push(SolveEvent::Done).push(
                    SolveEvent::Done,
                ).push(SolveEvent::Done).push(SolveEvent::Token(token)),
            );
            let end = solve_next(got, stopped);
            &&& solve_pending(got) is StopInterception
            &&& solve_pending(end) is ReleasePermit
            &&& end.outcome == Some(Ok::<_, ErrorModel>(SolvedModel::Token(token@)))
        }),
{
    let a = opening(start.proxy, context);
    let b = a.push(SolveEvent::Done);
    let c = b.push(SolveEvent::Done);
    let d = c.push(SolveEvent::Done);
    let e = d.push(SolveEvent::Done);
    lemma_opening(start, context);
    lemma_run_push(start, a, SolveEvent::Done);
    lemma_run_push(start, b, SolveEvent::Done);
    lemma_run_push(start, c, SolveEvent::Done);
    lemma_run_push(start, d, SolveEvent::Done);
    lemma_run_push(start, e, SolveEvent::Token(token));
}

} // verus!
