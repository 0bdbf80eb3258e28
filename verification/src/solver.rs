//! The operations on a protected page, as sequences of requests to a browser.
//!
//! An operation is a `Solve`: `pending` says what to ask of the browser, `step`
//! takes the reply, and `result` gives what came of it.

use crate::error::{internal_while, ChaserError, ErrorModel};
use crate::intercept::{fake_page, served_page, ResourceKind};
use crate::models::{
    chars_if_any, copied_proxy, credentials_of, proxy_if_any, session_from, session_of,
    setup_proxy_auth, text_from, text_or_empty, Credentials, Evaluated, ProxyConfig, ProxyModel,
    RawCookie, SessionModel, WafSession, WafSessionOptions,
};
use crate::time::{millis, short_millis, Elapsed};
use crate::token::TURNSTILE_EXTRACTOR_SCRIPT;
use vstd::prelude::*;
use vstd::string::*;

verus! {

/// The page that a tab shows before anything is loaded.
pub const BLANK_PAGE: &'static str = "about:blank";

/// Gives the name that the browser goes by.
pub const USER_AGENT_SCRIPT: &'static str = "navigator.userAgent";

/// The addresses whose requests are intercepted: all of them.
pub const INTERCEPT_PATTERN: &'static str = "*";

/// How long the source of a page may wait for clearance.
pub const SOURCE_CLEARANCE_SECS: u64 = 30;

/// How long a session may wait for clearance.
pub const SESSION_CLEARANCE_SECS: u64 = 90;

/// How long to wait for a token.
pub const TOKEN_WAIT_SECS: u64 = 60;

/// How long the disposal of a context may take.
pub const DISPOSE_SECS: u64 = 5;

/// What is wanted of the page.
#[derive(Debug, Clone, Copy, PartialEq, Eq, Structural)]
pub enum Operation {
    /// Its source, once it is shown.
    Source,
    /// The cookies and the headers to go on with.
    WafSession,
    /// A token of its own widget.
    TurnstileMax,
    /// A token of a widget in a small page served in its place.
    TurnstileMin,
}

/// What an operation has come to.
#[derive(Debug, Clone, Copy, PartialEq, Eq, Structural)]
pub enum SolvePhase {
    Permit,
    Context,
    Page,
    Auth,
    Extractor,
    Interception,
    Listener,
    Interceptor,
    Navigate,
    Clearance,
    Content,
    Cookies,
    UserAgent,
    Token,
    StopInterception,
    Dispose,
    Release,
    Finished,
}

/// What an operation gives.
#[derive(Debug)]
pub enum Solved {
    Source(String),
    Session(WafSession),
    Token(String),
}

/// An operation under way.
#[derive(Debug)]
pub struct Solve {
    operation: Operation,
    url: String,
    proxy: Option<ProxyConfig>,
    fresh_context: bool,
    timeout_ms: u64,
    page: String,
    phase: SolvePhase,
    context: Option<String>,
    cookies: Vec<RawCookie>,
    outcome: Option<Result<Solved, ChaserError>>,
}

/// What an operation asks for.
#[derive(Debug)]
pub enum SolveAction {
    /// Wait for leave to use the browser.
    AcquirePermit,
    /// Make a context behind the proxy, fresh or as it comes.
    CreateContext { proxy: Option<ProxyConfig>, fresh: bool },
    /// Open a tab in the context, at the address.
    NewPage { within: Option<String>, address: &'static str },
    /// Answer the proxy's authentication requests.
    Authenticate(Credentials),
    /// Run the script in every document before anything else.
    InstallScript(&'static str),
    /// Pause the requests of the kind to the addresses.
    EnableInterception { pattern: &'static str, kind: ResourceKind },
    /// Listen for paused requests.
    Listen,
    /// Route paused requests, with the page for those to the address.
    StartInterceptor { url: String, page: String },
    /// Load the address.
    Navigate(String),
    /// Wait for clearance, for at most so many seconds.
    AwaitClearance(u64),
    /// Read the source of the page.
    ReadContent,
    /// Read the cookies of the browser.
    ReadCookies,
    /// Evaluate the script in the page.
    Evaluate(&'static str),
    /// Wait for a token, for at most so many seconds.
    AwaitToken(u64),
    /// Stop routing requests, and pause them no more.
    StopInterception,
    /// Dispose of the context, within so many seconds.
    DisposeContext { context: String, timeout_seconds: u64 },
    /// Give back the leave to use the browser.
    ReleasePermit,
    /// Nothing more: the operation is over.
    Finish,
}

/// What an operation is told.
#[derive(Debug)]
pub enum SolveEvent {
    /// It was done.
    Done,
    /// A context was made, with a name of its own unless it is the default one.
    Context(Option<String>),
    /// The source of the page.
    Content(String),
    /// The cookies of the browser.
    Cookies(Vec<RawCookie>),
    /// What the script gave.
    Evaluated(Evaluated),
    /// The token.
    Token(String),
    /// It failed, for a reason that is already told.
    Failed(ChaserError),
    /// The browser refused it, in these words.
    BrowserError(String),
    /// The time for the whole operation is up.
    DeadlinePassed,
}

/// What a `Solved` says.
pub enum SolvedModel {
    Source(Seq<char>),
    Session(SessionModel),
    Token(Seq<char>),
}

/// What a `Solve` says.
pub struct SolveModel {
    pub operation: Operation,
    pub url: Seq<char>,
    pub proxy: Option<ProxyModel>,
    pub fresh_context: bool,
    pub timeout_ms: u64,
    pub page: Seq<char>,
    pub phase: SolvePhase,
    pub context: Option<Seq<char>>,
    pub cookies: Seq<RawCookie>,
    pub outcome: Option<Result<SolvedModel, ErrorModel>>,
}

/// What a `SolveAction` says.
pub enum ActionModel {
    AcquirePermit,
    CreateContext { proxy: Option<ProxyModel>, fresh: bool },
    NewPage { within: Option<Seq<char>>, address: Seq<char> },
    Authenticate(Seq<char>, Seq<char>),
    InstallScript(Seq<char>),
    EnableInterception { pattern: Seq<char>, kind: ResourceKind },
    Listen,
    StartInterceptor { url: Seq<char>, page: Seq<char> },
    Navigate(Seq<char>),
    AwaitClearance(u64),
    ReadContent,
    ReadCookies,
    Evaluate(Seq<char>),
    AwaitToken(u64),
    StopInterception,
    DisposeContext { context: Seq<char>, timeout_seconds: u64 },
    ReleasePermit,
    Finish,
}

impl View for Solved {
    type V = SolvedModel;

    open spec fn view(&self) -> SolvedModel {
        match self {
            Solved::Source(source) => SolvedModel::Source(source@),
            Solved::Session(session) => SolvedModel::Session(session@),
            Solved::Token(token) => SolvedModel::Token(token@),
        }
    }
}

/// What an outcome says.
pub open spec fn outcome_model(outcome: Result<Solved, ChaserError>) -> Result<
    SolvedModel,
    ErrorModel,
> {
    match outcome {
        Ok(solved) => Ok(solved@),
        Err(error) => Err(error@),
    }
}

impl View for Solve {
    type V = SolveModel;

    closed spec fn view(&self) -> SolveModel {
        SolveModel {
            operation: self.operation,
            url: self.url@,
            proxy: proxy_if_any(self.proxy),
            fresh_context: self.fresh_context,
            timeout_ms: self.timeout_ms,
            page: self.page@,
            phase: self.phase,
            context: chars_if_any(self.context),
            cookies: self.cookies@,
            outcome: match self.outcome {
                Some(outcome) => Some(outcome_model(outcome)),
                None => None,
            },
        }
    }
}

impl View for SolveAction {
    type V = ActionModel;

    open spec fn view(&self) -> ActionModel {
        match *self {
            SolveAction::AcquirePermit => ActionModel::AcquirePermit,
            SolveAction::CreateContext { proxy, fresh } => ActionModel::CreateContext {
                proxy: proxy_if_any(proxy),
                fresh,
            },
            SolveAction::NewPage { within, address } => ActionModel::NewPage {
                within: chars_if_any(within),
                address: address@,
            },
            SolveAction::Authenticate(c) => ActionModel::Authenticate(c.username@, c.password@),
            SolveAction::InstallScript(script) => ActionModel::InstallScript(script@),
            SolveAction::EnableInterception { pattern, kind } => ActionModel::EnableInterception {
                pattern: pattern@,
                kind,
            },
            SolveAction::Listen => ActionModel::Listen,
            SolveAction::StartInterceptor { url, page } => ActionModel::StartInterceptor {
                url: url@,
                page: page@,
            },
            SolveAction::Navigate(url) => ActionModel::Navigate(url@),
            SolveAction::AwaitClearance(seconds) => ActionModel::AwaitClearance(seconds),
            SolveAction::ReadContent => ActionModel::ReadContent,
            SolveAction::ReadCookies => ActionModel::ReadCookies,
            SolveAction::Evaluate(script) => ActionModel::Evaluate(script@),
            SolveAction::AwaitToken(seconds) => ActionModel::AwaitToken(seconds),
            SolveAction::StopInterception => ActionModel::StopInterception,
            SolveAction::DisposeContext { context, timeout_seconds } => ActionModel::DisposeContext {
                context: context@,
                timeout_seconds,
            },
            SolveAction::ReleasePermit => ActionModel::ReleasePermit,
            SolveAction::Finish => ActionModel::Finish,
        }
    }
}

/// An operation that has just begun.
pub open spec fn solve_start(
    operation: Operation,
    url: Seq<char>,
    proxy: Option<ProxyModel>,
    fresh_context: bool,
    timeout_ms: u64,
    page: Seq<char>,
) -> SolveModel {
    SolveModel {
        operation,
        url,
        proxy,
        fresh_context,
        timeout_ms,
        page,
        phase: SolvePhase::Permit,
        context: None,
        cookies: Seq::empty(),
        outcome: None,
    }
}

/// What follows once a tab is open and the proxy is answered.
pub open spec fn after_auth(operation: Operation) -> SolvePhase {
    match operation {
        Operation::Source => SolvePhase::Navigate,
        Operation::WafSession => SolvePhase::Navigate,
        Operation::TurnstileMax => SolvePhase::Extractor,
        Operation::TurnstileMin => SolvePhase::Interception,
    }
}

/// What follows once the address was loaded.
pub open spec fn after_navigation(operation: Operation) -> SolvePhase {
    match operation {
        Operation::Source => SolvePhase::Clearance,
        Operation::WafSession => SolvePhase::Clearance,
        Operation::TurnstileMax => SolvePhase::Token,
        Operation::TurnstileMin => SolvePhase::Token,
    }
}

/// What follows once clearance came or the wait for it was over.
pub open spec fn after_clearance(operation: Operation) -> SolvePhase {
    match operation {
        Operation::WafSession => SolvePhase::Cookies,
        _ => SolvePhase::Content,
    }
}

/// How long an operation waits for clearance.
pub open spec fn clearance_seconds(operation: Operation) -> u64 {
    match operation {
        Operation::WafSession => SESSION_CLEARANCE_SECS,
        _ => SOURCE_CLEARANCE_SECS,
    }
}

/// What an operation asks for in a state.
pub open spec fn solve_pending(m: SolveModel) -> ActionModel {
    match m.phase {
        SolvePhase::Permit => ActionModel::AcquirePermit,
        SolvePhase::Context => ActionModel::CreateContext { proxy: m.proxy, fresh: m.fresh_context },
        SolvePhase::Page => ActionModel::NewPage { within: m.context, address: BLANK_PAGE@ },
        SolvePhase::Auth => match credentials_of(m.proxy) {
            Some((username, password)) => ActionModel::Authenticate(username, password),
            None => ActionModel::Finish,
        },
        SolvePhase::Extractor => ActionModel::InstallScript(TURNSTILE_EXTRACTOR_SCRIPT@),
        SolvePhase::Interception => ActionModel::EnableInterception {
            pattern: INTERCEPT_PATTERN@,
            kind: ResourceKind::Document,
        },
        SolvePhase::Listener => ActionModel::Listen,
        SolvePhase::Interceptor => ActionModel::StartInterceptor { url: m.url, page: m.page },
        SolvePhase::Navigate => ActionModel::Navigate(m.url),
        SolvePhase::Clearance => ActionModel::AwaitClearance(clearance_seconds(m.operation)),
        SolvePhase::Content => ActionModel::ReadContent,
        SolvePhase::Cookies => ActionModel::ReadCookies,
        SolvePhase::UserAgent => ActionModel::Evaluate(USER_AGENT_SCRIPT@),
        SolvePhase::Token => ActionModel::AwaitToken(TOKEN_WAIT_SECS),
        SolvePhase::StopInterception => ActionModel::StopInterception,
        SolvePhase::Dispose => match m.context {
            Some(context) => ActionModel::DisposeContext { context, timeout_seconds: DISPOSE_SECS },
            None => ActionModel::Finish,
        },
        SolvePhase::Release => ActionModel::ReleasePermit,
        SolvePhase::Finished => ActionModel::Finish,
    }
}

/// What follows once the outcome is settled. A session leaves no context of its
/// own behind; the other operations do not dispose of theirs. The permit is
/// given back last, where one was granted.
pub open spec fn after_outcome(m: SolveModel) -> SolvePhase {
    if m.phase == SolvePhase::Permit {
        SolvePhase::Finished
    } else if m.operation == Operation::WafSession && m.context is Some {
        SolvePhase::Dispose
    } else {
        SolvePhase::Release
    }
}

/// The state with the outcome settled.
pub open spec fn concluded(m: SolveModel, outcome: Result<SolvedModel, ErrorModel>) -> SolveModel {
    SolveModel {
        outcome: Some(outcome),
        phase: after_outcome(m),
        ..m
    }
}

/// The error that a refusal of the browser makes of an operation, where the
/// browser can refuse what is pending.
pub open spec fn refusal(phase: SolvePhase, message: Seq<char>) -> Option<ErrorModel> {
    match phase {
        SolvePhase::Auth => Some(ErrorModel::Internal("proxy auth: "@ + message)),
        SolvePhase::Extractor => Some(ErrorModel::Internal(message)),
        SolvePhase::Interception => Some(ErrorModel::Internal("enable interception: "@ + message)),
        SolvePhase::Listener => Some(ErrorModel::Internal("request listener: "@ + message)),
        SolvePhase::Navigate => Some(ErrorModel::NavigationFailed(message)),
        SolvePhase::Content => Some(ErrorModel::Internal(message)),
        SolvePhase::Cookies => Some(ErrorModel::CookieExtractionFailed(message)),
        _ => None,
    }
}

/// The phase after one that reports nothing but that it was done.
pub open spec fn after_done(m: SolveModel) -> Option<SolvePhase> {
    match m.phase {
        SolvePhase::Permit => Some(SolvePhase::Context),
        SolvePhase::Page => Some(
            if credentials_of(m.proxy) is Some {
                SolvePhase::Auth
            } else {
                after_auth(m.operation)
            },
        ),
        SolvePhase::Auth => Some(after_auth(m.operation)),
        SolvePhase::Extractor => Some(SolvePhase::Navigate),
        SolvePhase::Interception => Some(SolvePhase::Listener),
        SolvePhase::Listener => Some(SolvePhase::Interceptor),
        SolvePhase::Interceptor => Some(SolvePhase::Navigate),
        SolvePhase::Navigate => Some(after_navigation(m.operation)),
        SolvePhase::Clearance => Some(after_clearance(m.operation)),
        _ => None,
    }
}

/// The outcome is settled and only has to be cleaned up after.
pub open spec fn cleaning_up(phase: SolvePhase) -> bool {
    phase == SolvePhase::StopInterception || phase == SolvePhase::Dispose
}

/// What is pending can fail for a reason that is told as an error of an operation.
pub open spec fn can_fail(phase: SolvePhase) -> bool {
    ||| phase == SolvePhase::Permit
    ||| phase == SolvePhase::Context
    ||| phase == SolvePhase::Page
    ||| phase == SolvePhase::Token
}

/// The state after an event. An event that answers nothing asked changes
/// nothing. Only a session has a deadline.
pub open spec fn solve_next(m: SolveModel, event: SolveEvent) -> SolveModel {
    if m.phase == SolvePhase::Finished {
        m
    } else if cleaning_up(m.phase) {
        match event {
            SolveEvent::Done
            | SolveEvent::Failed(_)
            | SolveEvent::BrowserError(_)
            | SolveEvent::DeadlinePassed => SolveModel { phase: SolvePhase::Release, ..m },
            _ => m,
        }
    } else if m.phase == SolvePhase::Release {
        match event {
            SolveEvent::Done => SolveModel { phase: SolvePhase::Finished, ..m },
            _ => m,
        }
    } else {
        match event {
            SolveEvent::Done => match after_done(m) {
                Some(phase) => SolveModel { phase, ..m },
                None => m,
            },
            SolveEvent::Context(context) => if m.phase == SolvePhase::Context {
                SolveModel {
                    context: chars_if_any(context),
                    phase: SolvePhase::Page,
                    ..m
                }
            } else {
                m
            },
            SolveEvent::Content(source) => if m.phase == SolvePhase::Content {
                concluded(m, Ok(SolvedModel::Source(source@)))
            } else {
                m
            },
            SolveEvent::Cookies(cookies) => if m.phase == SolvePhase::Cookies {
                SolveModel { cookies: cookies@, phase: SolvePhase::UserAgent, ..m }
            } else {
                m
            },
            SolveEvent::Evaluated(evaluated) => if m.phase == SolvePhase::UserAgent {
                concluded(
                    m,
                    Ok(SolvedModel::Session(session_of(m.cookies, text_or_empty(evaluated)))),
                )
            } else {
                m
            },
            SolveEvent::Token(token) => if m.phase == SolvePhase::Token {
                if m.operation == Operation::TurnstileMin {
                    SolveModel {
                        outcome: Some(Ok(SolvedModel::Token(token@))),
                        phase: SolvePhase::StopInterception,
                        ..m
                    }
                } else {
                    concluded(m, Ok(SolvedModel::Token(token@)))
                }
            } else {
                m
            },
            SolveEvent::Failed(error) => if can_fail(m.phase) {
                concluded(m, Err(error@))
            } else {
                m
            },
            SolveEvent::BrowserError(message) => match refusal(m.phase, message@) {
                Some(error) => concluded(m, Err(error)),
                None => m,
            },
            SolveEvent::DeadlinePassed => if m.operation == Operation::WafSession {
                concluded(m, Err(ErrorModel::Timeout(m.timeout_ms)))
            } else {
                m
            },
        }
    }
}

/// The state after a sequence of events.
pub open spec fn solve_run(m: SolveModel, events: Seq<SolveEvent>) -> SolveModel
    decreases events.len(),
{
    if events.len() == 0 {
        m
    } else {
        solve_next(solve_run(m, events.drop_last()), events.last())
    }
}

fn solve(
    operation: Operation,
    url: &str,
    proxy: Option<ProxyConfig>,
    fresh_context: bool,
    timeout_ms: u64,
    page: String,
) -> (solve: Solve)
    ensures
        solve@ == solve_start(
            operation,
            url@,
            proxy_if_any(proxy),
            fresh_context,
            timeout_ms,
            page@,
        ),
{
    Solve {
        operation,
        url: url.to_owned(),
        proxy,
        fresh_context,
        timeout_ms,
        page,
        phase: SolvePhase::Permit,
        context: None,
        cookies: Vec::new(),
        outcome: None,
    }
}

/// Begins to read the source of a protected page.
pub fn get_source(url: &str, proxy: Option<ProxyConfig>) -> (source: Solve)
    ensures
        source@ == solve_start(
            Operation::Source,
            url@,
            proxy_if_any(proxy),
            false,
            0,
            Seq::empty(),
        ),
        source@.operation == Operation::Source,
        source@.url == url@,
        proxy matches Some(p) ==> source@.proxy == Some(p@),
        proxy is None ==> source@.proxy is None,
        source@.fresh_context == false,
        source@.phase == SolvePhase::Permit,
        source@.context is None,
        source@.outcome is None,
{
    solve(Operation::Source, url, proxy, false, 0, String::new())
}

/// Begins to get the cookies and the name of a browser that has passed the
/// challenge of a page, within the given time.
pub fn solve_waf_session(
    url: &str,
    proxy: Option<ProxyConfig>,
    options: WafSessionOptions,
    operation_timeout: Elapsed,
) -> (session: Solve)
    ensures
        session@ == solve_start(
            Operation::WafSession,
            url@,
            proxy_if_any(proxy),
            options.fresh_context,
            short_millis(operation_timeout.total_nanos()) as u64,
            Seq::empty(),
        ),
        session@.operation == Operation::WafSession,
        session@.url == url@,
        proxy matches Some(p) ==> session@.proxy == Some(p@),
        proxy is None ==> session@.proxy is None,
        session@.fresh_context == options.fresh_context,
        session@.phase == SolvePhase::Permit,
        session@.context is None,
        session@.outcome is None,
        session@.timeout_ms == short_millis(operation_timeout.total_nanos()),
        session@.timeout_ms == ((operation_timeout.secs * 1_000_000_000
            + operation_timeout.subsec_nanos) / 1_000_000) % 0x1_0000_0000_0000_0000,
{
    let timeout_ms: u64 = millis(operation_timeout.as_nanos());
    solve(Operation::WafSession, url, proxy, options.fresh_context, timeout_ms, String::new())
}

/// Begins to get a token from the widget of a page, loading the whole page.
pub fn solve_turnstile_max(url: &str, proxy: Option<ProxyConfig>) -> (token: Solve)
    ensures
        token@ == solve_start(
            Operation::TurnstileMax,
            url@,
            proxy_if_any(proxy),
            false,
            0,
            Seq::empty(),
        ),
        token@.operation == Operation::TurnstileMax,
        token@.url == url@,
        proxy matches Some(p) ==> token@.proxy == Some(p@),
        proxy is None ==> token@.proxy is None,
        token@.fresh_context == false,
        token@.phase == SolvePhase::Permit,
        token@.context is None,
        token@.outcome is None,
{
    solve(Operation::TurnstileMax, url, proxy, false, 0, String::new())
}

/// Begins to get a token for a site key, from a small page that is served in
/// place of the one at the address.
pub fn solve_turnstile_min(
    url: &str,
    site_key: &str,
    template: &str,
    proxy: Option<ProxyConfig>,
) -> (token: Solve)
    ensures
        token@ == solve_start(
            Operation::TurnstileMin,
            url@,
            proxy_if_any(proxy),
            false,
            0,
            served_page(template@, site_key@),
        ),
        token@.operation == Operation::TurnstileMin,
        token@.url == url@,
        proxy matches Some(p) ==> token@.proxy == Some(p@),
        proxy is None ==> token@.proxy is None,
        token@.fresh_context == false,
        token@.page == served_page(template@, site_key@),
        token@.phase == SolvePhase::Permit,
        token@.context is None,
        token@.outcome is None,
{
    solve(Operation::TurnstileMin, url, proxy, false, 0, fake_page(template, site_key))
}

/// What follows once a tab is open and the proxy is answered.
fn phase_after_auth(operation: Operation) -> (phase: SolvePhase)
    ensures
        phase == after_auth(operation),
{
    match operation {
        Operation::Source => SolvePhase::Navigate,
        Operation::WafSession => SolvePhase::Navigate,
        Operation::TurnstileMax => SolvePhase::Extractor,
        Operation::TurnstileMin => SolvePhase::Interception,
    }
}

/// The error that a refusal of the browser makes of an operation.
fn error_for(phase: SolvePhase, message: String) -> (error: Option<ChaserError>)
    ensures
        match error {
            Some(e) => refusal(phase, message@) == Some(e@),
            None => refusal(phase, message@) is None,
        },
{
    match phase {
        SolvePhase::Auth => Some(internal_while("proxy auth: ", message.as_str())),
        SolvePhase::Extractor => Some(ChaserError::Internal(message)),
        SolvePhase::Interception => Some(
            internal_while("enable interception: ", message.as_str()),
        ),
        SolvePhase::Listener => Some(internal_while("request listener: ", message.as_str())),
        SolvePhase::Navigate => Some(ChaserError::NavigationFailed(message)),
        SolvePhase::Content => Some(ChaserError::Internal(message)),
        SolvePhase::Cookies => Some(ChaserError::CookieExtractionFailed(message)),
        _ => None,
    }
}

impl Solve {
    /// What the operation asks for now.
    pub fn pending(&self) -> (action: SolveAction)
        ensures
            action@ == solve_pending(self@),
    {
        match self.phase {
            SolvePhase::Permit => SolveAction::AcquirePermit,
            SolvePhase::Context => SolveAction::CreateContext {
                proxy: copied_proxy(&self.proxy),
                fresh: self.fresh_context,
            },
            SolvePhase::Page => SolveAction::NewPage {
                within: match &self.context {
                    Some(context) => Some(context.clone()),
                    None => None,
                },
                address: BLANK_PAGE,
            },
            SolvePhase::Auth => match setup_proxy_auth(&self.proxy) {
                Some(credentials) => SolveAction::Authenticate(credentials),
                None => SolveAction::Finish,
            },
            SolvePhase::Extractor => SolveAction::InstallScript(TURNSTILE_EXTRACTOR_SCRIPT),
            SolvePhase::Interception => SolveAction::EnableInterception {
                pattern: INTERCEPT_PATTERN,
                kind: ResourceKind::Document,
            },
            SolvePhase::Listener => SolveAction::Listen,
            SolvePhase::Interceptor => SolveAction::StartInterceptor {
                url: self.url.clone(),
                page: self.page.clone(),
            },
            SolvePhase::Navigate => SolveAction::Navigate(self.url.clone()),
            SolvePhase::Clearance => SolveAction::AwaitClearance(
                match self.operation {
                    Operation::WafSession => SESSION_CLEARANCE_SECS,
                    _ => SOURCE_CLEARANCE_SECS,
                },
            ),
            SolvePhase::Content => SolveAction::ReadContent,
            SolvePhase::Cookies => SolveAction::ReadCookies,
            SolvePhase::UserAgent => SolveAction::Evaluate(USER_AGENT_SCRIPT),
            SolvePhase::Token => SolveAction::AwaitToken(TOKEN_WAIT_SECS),
            SolvePhase::StopInterception => SolveAction::StopInterception,
            SolvePhase::Dispose => match &self.context {
                Some(context) => SolveAction::DisposeContext {
                    context: context.clone(),
                    timeout_seconds: DISPOSE_SECS,
                },
                None => SolveAction::Finish,
            },
            SolvePhase::Release => SolveAction::ReleasePermit,
            SolvePhase::Finished => SolveAction::Finish,
        }
    }

    /// Settles the outcome.
    fn conclude(&mut self, outcome: Result<Solved, ChaserError>)
        ensures
            final(self)@ == concluded(old(self)@, outcome_model(outcome)),
    {
        self.outcome = Some(outcome);
        self.phase = if self.phase == SolvePhase::Permit {
            SolvePhase::Finished
        } else if self.operation == Operation::WafSession && self.context.is_some() {
            SolvePhase::Dispose
        } else {
            SolvePhase::Release
        };
    }

    /// The phase after one that reports nothing but that it was done.
    fn phase_after_done(&self) -> (phase: Option<SolvePhase>)
        ensures
            phase == after_done(self@),
    {
        match self.phase {
            SolvePhase::Permit => Some(SolvePhase::Context),
            SolvePhase::Page => if setup_proxy_auth(&self.proxy).is_some() {
                Some(SolvePhase::Auth)
            } else {
                Some(phase_after_auth(self.operation))
            },
            SolvePhase::Auth => Some(phase_after_auth(self.operation)),
            SolvePhase::Extractor => Some(SolvePhase::Navigate),
            SolvePhase::Interception => Some(SolvePhase::Listener),
            SolvePhase::Listener => Some(SolvePhase::Interceptor),
            SolvePhase::Interceptor => Some(SolvePhase::Navigate),
            SolvePhase::Navigate => match self.operation {
                Operation::Source => Some(SolvePhase::Clearance),
                Operation::WafSession => Some(SolvePhase::Clearance),
                Operation::TurnstileMax => Some(SolvePhase::Token),
                Operation::TurnstileMin => Some(SolvePhase::Token),
            },
            SolvePhase::Clearance => match self.operation {
                Operation::WafSession => Some(SolvePhase::Cookies),
                _ => Some(SolvePhase::Content),
            },
            _ => None,
        }
    }

    /// Goes on after an event.
    pub fn step(&mut self, event: SolveEvent)
        ensures
            final(self)@ == solve_next(old(self)@, event),
    {
        if self.phase == SolvePhase::Finished {
            return;
        }
        if self.phase == SolvePhase::StopInterception || self.phase == SolvePhase::Dispose {
            match event {
                SolveEvent::Done
                | SolveEvent::Failed(_)
                | SolveEvent::BrowserError(_)
                | SolveEvent::DeadlinePassed => {
                    self.phase = SolvePhase::Release;
                },
                _ => {},
            }
            return;
        }
        if self.phase == SolvePhase::Release {
            if let SolveEvent::Done = event {
                self.phase = SolvePhase::Finished;
            }
            return;
        }
        match event {
            SolveEvent::Done => {
                if let Some(phase) = self.phase_after_done() {
                    self.phase = phase;
                }
            },
            SolveEvent::Context(context) => {
                if self.phase == SolvePhase::Context {
                    self.context = context;
                    self.phase = SolvePhase::Page;
                }
            },
            SolveEvent::Content(source) => {
                if self.phase == SolvePhase::Content {
                    self.conclude(Ok(Solved::Source(source)));
                }
            },
            SolveEvent::Cookies(cookies) => {
                if self.phase == SolvePhase::Cookies {
                    self.cookies = cookies;
                    self.phase = SolvePhase::UserAgent;
                }
            },
            SolveEvent::Evaluated(evaluated) => {
                if self.phase == SolvePhase::UserAgent {
                    let session: WafSession = session_from(&self.cookies, text_from(evaluated));
                    self.conclude(Ok(Solved::Session(session)));
                }
            },
            SolveEvent::Token(token) => {
                if self.phase == SolvePhase::Token {
                    if self.operation == Operation::TurnstileMin {
                        self.outcome = Some(Ok(Solved::Token(token)));
                        self.phase = SolvePhase::StopInterception;
                    } else {
                        self.conclude(Ok(Solved::Token(token)));
                    }
                }
            },
            SolveEvent::Failed(error) => {
                if self.phase == SolvePhase::Permit || self.phase == SolvePhase::Context
                    || self.phase == SolvePhase::Page || self.phase == SolvePhase::Token {
                    self.conclude(Err(error));
                }
            },
            SolveEvent::BrowserError(message) => {
                if let Some(error) = error_for(self.phase, message) {
                    self.conclude(Err(error));
                }
            },
            SolveEvent::DeadlinePassed => {
                if self.operation == Operation::WafSession {
                    let timeout_ms: u64 = self.timeout_ms;
                    self.conclude(Err(ChaserError::Timeout(timeout_ms)));
                }
            },
        }
    }

    /// What came of the operation, once it is settled.
    pub fn result(self) -> (result: Option<Result<Solved, ChaserError>>)
        ensures
            match result {
                Some(outcome) => self@.outcome == Some(outcome_model(outcome)),
                None => self@.outcome is None,
            },
    {
        self.outcome
    }
}

} // verus!
