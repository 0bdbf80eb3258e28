use chaser_cf::error::ChaserError;
use chaser_cf::intercept::{fake_page, is_target, route_request, ResourceKind, Route};
use chaser_cf::models::{
    has_clearance_cookie, session_from, setup_proxy_auth, text_from, Evaluated, ProxyConfig,
    RawCookie, SameSite, WafSession, WafSessionOptions,
};
use chaser_cf::solver::{
    get_source, solve_turnstile_max, solve_turnstile_min, solve_waf_session, Solve, SolveAction,
    SolveEvent, Solved,
};
use chaser_cf::text;
use chaser_cf::time::Elapsed;
use chaser_cf::token::TURNSTILE_EXTRACTOR_SCRIPT;

const URL: &str = "https://example.com";

fn minute() -> Elapsed {
    Elapsed {
        secs: 60,
        subsec_nanos: 0,
    }
}

fn raw(name: &str, same_site: Option<SameSite>) -> RawCookie {
    RawCookie {
        name: name.to_string(),
        value: "v".to_string(),
        domain: "example.com".to_string(),
        path: "/".to_string(),
        expires_bits: 1.5f64.to_bits(),
        http_only: true,
        secure: false,
        same_site,
    }
}

fn session(options: WafSessionOptions) -> Solve {
    solve_waf_session(URL, None, options, minute())
}

/// Up to a loaded page, in the context.
fn loaded(mut solve: Solve, context: Option<&str>) -> Solve {
    solve.step(SolveEvent::Done);
    solve.step(SolveEvent::Context(context.map(str::to_string)));
    solve.step(SolveEvent::Done);
    assert!(matches!(solve.pending(), SolveAction::Navigate(u) if u == URL));
    solve.step(SolveEvent::Done);
    solve
}

/// Gives the permit back, after which nothing more is asked for.
fn release(solve: &mut Solve) {
    assert!(matches!(solve.pending(), SolveAction::ReleasePermit));
    solve.step(SolveEvent::DeadlinePassed);
    assert!(matches!(solve.pending(), SolveAction::ReleasePermit));
    solve.step(SolveEvent::Done);
    assert!(matches!(solve.pending(), SolveAction::Finish));
}

fn error_of(solve: Solve) -> ChaserError {
    match solve.result() {
        Some(Err(error)) => error,
        other => panic!("{:?}", other),
    }
}

fn session_of(solve: Solve) -> WafSession {
    match solve.result() {
        Some(Ok(Solved::Session(session))) => session,
        other => panic!("{:?}", other),
    }
}

#[test]
fn source_is_what_was_read() {
    let mut solve = get_source(URL, None);
    assert!(matches!(solve.pending(), SolveAction::AcquirePermit));
    solve.step(SolveEvent::Done);
    assert!(matches!(
        solve.pending(),
        SolveAction::CreateContext {
            proxy: None,
            fresh: false
        }
    ));
    solve.step(SolveEvent::Context(None));
    assert!(matches!(
        solve.pending(),
        SolveAction::NewPage {
            within: None,
            address: "about:blank"
        }
    ));
    solve.step(SolveEvent::Done);
    solve.step(SolveEvent::Done);
    assert!(matches!(solve.pending(), SolveAction::AwaitClearance(30)));
    solve.step(SolveEvent::Done);
    assert!(matches!(solve.pending(), SolveAction::ReadContent));
    solve.step(SolveEvent::Content("<html>".to_string()));
    release(&mut solve);
    assert!(matches!(solve.result(), Some(Ok(Solved::Source(s))) if s == "<html>"));
}

#[test]
fn session_holds_cookies_and_user_agent_and_its_context_is_disposed_of() {
    let mut solve = loaded(session(WafSessionOptions::default()), Some("ctx"));
    assert!(matches!(solve.pending(), SolveAction::AwaitClearance(90)));
    solve.step(SolveEvent::Done);
    assert!(matches!(solve.pending(), SolveAction::ReadCookies));
    solve.step(SolveEvent::Cookies(vec![
        raw("cf_clearance", Some(SameSite::Unrestricted)),
        raw("b", None),
    ]));
    assert!(matches!(
        solve.pending(),
        SolveAction::Evaluate("navigator.userAgent")
    ));
    solve.step(SolveEvent::Evaluated(Evaluated::Text("UA".to_string())));
    assert!(matches!(
        solve.pending(),
        SolveAction::DisposeContext { context, timeout_seconds: 5 } if context == "ctx"
    ));
    solve.step(SolveEvent::Failed(ChaserError::Internal("x".to_string())));
    release(&mut solve);
    let session = session_of(solve);
    assert_eq!(session.cookies.len(), 2);
    assert_eq!(session.cookies[0].name, "cf_clearance");
    assert_eq!(session.cookies[0].domain, Some("example.com".to_string()));
    assert_eq!(session.cookies[0].path, Some("/".to_string()));
    assert_eq!(session.cookies[0].expires_bits, Some(1.5f64.to_bits()));
    assert_eq!(session.cookies[0].http_only, Some(true));
    assert_eq!(session.cookies[0].secure, Some(false));
    assert_eq!(session.cookies[0].same_site, Some("None".to_string()));
    assert_eq!(session.cookies[1].same_site, None);
    assert_eq!(session.headers.len(), 1);
    assert_eq!(session.headers[0].name, "user-agent");
    assert_eq!(session.headers[0].value, "UA");
}

#[test]
fn session_in_the_default_context_disposes_of_nothing() {
    let mut solve = loaded(
        session(WafSessionOptions::default().with_fresh_context(false)),
        None,
    );
    solve.step(SolveEvent::Done);
    solve.step(SolveEvent::Cookies(vec![]));
    solve.step(SolveEvent::Evaluated(Evaluated::Failed));
    release(&mut solve);
    assert_eq!(session_of(solve).headers[0].value, "");
}

#[test]
fn sessions_are_fresh_by_default() {
    for (options, expected) in [
        (WafSessionOptions::default(), true),
        (WafSessionOptions::default().with_fresh_context(false), false),
    ] {
        let mut solve = session(options);
        solve.step(SolveEvent::Done);
        assert!(matches!(
            solve.pending(),
            SolveAction::CreateContext { fresh, .. } if fresh == expected
        ));
    }
}

#[test]
fn deadline_fails_a_session_at_any_point() {
    let mut early = session(WafSessionOptions::default());
    early.step(SolveEvent::DeadlinePassed);
    assert!(matches!(early.pending(), SolveAction::Finish));
    assert_eq!(error_of(early), ChaserError::Timeout(60_000));

    let mut late = loaded(session(WafSessionOptions::default()), Some("ctx"));
    late.step(SolveEvent::DeadlinePassed);
    assert!(matches!(
        late.pending(),
        SolveAction::DisposeContext { .. }
    ));
    late.step(SolveEvent::DeadlinePassed);
    release(&mut late);
    assert_eq!(error_of(late), ChaserError::Timeout(60_000));
}

#[test]
fn other_operations_have_no_deadline_and_dispose_of_nothing() {
    let mut solve = loaded(get_source(URL, None), Some("ctx"));
    solve.step(SolveEvent::DeadlinePassed);
    assert!(matches!(solve.pending(), SolveAction::AwaitClearance(30)));
    solve.step(SolveEvent::Done);
    solve.step(SolveEvent::BrowserError("gone".to_string()));
    release(&mut solve);
    assert_eq!(error_of(solve), ChaserError::Internal("gone".to_string()));
}

#[test]
fn refusals_become_the_error_of_what_was_asked() {
    let mut solve = get_source(URL, None);
    solve.step(SolveEvent::Failed(ChaserError::Internal("full".to_string())));
    assert_eq!(error_of(solve), ChaserError::Internal("full".to_string()));

    let mut solve = get_source(URL, None);
    solve.step(SolveEvent::Done);
    solve.step(SolveEvent::Context(None));
    solve.step(SolveEvent::Done);
    solve.step(SolveEvent::BrowserError("dns".to_string()));
    assert_eq!(
        error_of(solve),
        ChaserError::NavigationFailed("dns".to_string())
    );

    let mut solve = loaded(session(WafSessionOptions::default()), None);
    solve.step(SolveEvent::Done);
    solve.step(SolveEvent::BrowserError("jar".to_string()));
    assert_eq!(
        error_of(solve),
        ChaserError::CookieExtractionFailed("jar".to_string())
    );
}

#[test]
fn proxy_is_answered_when_it_has_name_and_password() {
    let proxy = ProxyConfig::new("1.2.3.4", 8080).with_auth("user", "pass");
    let mut solve = get_source(URL, Some(proxy));
    solve.step(SolveEvent::Done);
    assert!(matches!(
        solve.pending(),
        SolveAction::CreateContext { proxy: Some(p), .. } if p.host == "1.2.3.4" && p.port == 8080
    ));
    solve.step(SolveEvent::Context(None));
    solve.step(SolveEvent::Done);
    assert!(matches!(
        solve.pending(),
        SolveAction::Authenticate(c) if c.username == "user" && c.password == "pass"
    ));
    solve.step(SolveEvent::BrowserError("no".to_string()));
    assert_eq!(
        error_of(solve),
        ChaserError::Internal("proxy auth: no".to_string())
    );

    let mut half = ProxyConfig::new("1.2.3.4", 8080);
    half.username = Some("user".to_string());
    assert!(setup_proxy_auth(&Some(half)).is_none());
    assert!(setup_proxy_auth(&None).is_none());
}

#[test]
fn full_page_token_is_the_pages() {
    let mut solve = solve_turnstile_max(URL, None);
    solve.step(SolveEvent::Done);
    solve.step(SolveEvent::Context(None));
    solve.step(SolveEvent::Done);
    assert!(matches!(
        solve.pending(),
        SolveAction::InstallScript(s) if s == TURNSTILE_EXTRACTOR_SCRIPT
    ));
    solve.step(SolveEvent::Done);
    solve.step(SolveEvent::Done);
    assert!(matches!(solve.pending(), SolveAction::AwaitToken(60)));
    solve.step(SolveEvent::Token("t".to_string()));
    release(&mut solve);
    assert!(matches!(solve.result(), Some(Ok(Solved::Token(t))) if t == "t"));
}

fn intercepting() -> Solve {
    let mut solve = solve_turnstile_min(URL, "0x4AAA", "<i a=\"<site-key>\"/>", None);
    solve.step(SolveEvent::Done);
    solve.step(SolveEvent::Context(None));
    solve.step(SolveEvent::Done);
    assert!(matches!(
        solve.pending(),
        SolveAction::EnableInterception {
            pattern: "*",
            kind: ResourceKind::Document
        }
    ));
    solve
}

#[test]
fn served_page_token_stops_interception_first() {
    let mut solve = intercepting();
    solve.step(SolveEvent::Done);
    assert!(matches!(solve.pending(), SolveAction::Listen));
    solve.step(SolveEvent::Done);
    assert!(matches!(
        solve.pending(),
        SolveAction::StartInterceptor { url, page } if url == URL && page == "<i a=\"0x4AAA\"/>"
    ));
    solve.step(SolveEvent::Done);
    solve.step(SolveEvent::Done);
    solve.step(SolveEvent::Token("tok".to_string()));
    assert!(matches!(solve.pending(), SolveAction::StopInterception));
    solve.step(SolveEvent::BrowserError("late".to_string()));
    release(&mut solve);
    assert!(matches!(solve.result(), Some(Ok(Solved::Token(t))) if t == "tok"));
}

#[test]
fn failed_interception_says_what_failed() {
    let mut solve = intercepting();
    solve.step(SolveEvent::BrowserError("a".to_string()));
    assert_eq!(
        error_of(solve),
        ChaserError::Internal("enable interception: a".to_string())
    );
    let mut solve = intercepting();
    solve.step(SolveEvent::Done);
    solve.step(SolveEvent::BrowserError("b".to_string()));
    assert_eq!(
        error_of(solve),
        ChaserError::Internal("request listener: b".to_string())
    );
}

#[test]
fn failed_token_wait_fails_without_stopping() {
    let mut solve = intercepting();
    for _ in 0..4 {
        solve.step(SolveEvent::Done);
    }
    solve.step(SolveEvent::Failed(ChaserError::CaptchaFailed(
        "timeout waiting for token".to_string(),
    )));
    release(&mut solve);
    assert_eq!(
        error_of(solve),
        ChaserError::CaptchaFailed("timeout waiting for token".to_string())
    );
}

#[test]
fn an_open_operation_has_no_result() {
    assert!(get_source(URL, None).result().is_none());
}

#[test]
fn page_requests_share_its_address() {
    assert!(is_target("https://example.com", URL));
    assert!(is_target("https://example.com/", URL));
    assert!(is_target("https://example.com/a?b", URL));
    assert!(!is_target("https://example.co", URL));
    assert!(!is_target("http://example.com", URL));
}

#[test]
fn only_documents_are_served() {
    assert_eq!(
        route_request("https://example.com/", URL, ResourceKind::Document),
        Route::Serve(200)
    );
    assert_eq!(
        route_request("https://example.com/", URL, ResourceKind::Other),
        Route::Continue
    );
    assert_eq!(
        route_request("https://other.com/", URL, ResourceKind::Document),
        Route::Continue
    );
}

#[test]
fn site_key_takes_every_place() {
    assert_eq!(fake_page("<site-key>-<site-key>", "k"), "k-k");
    assert_eq!(fake_page("\u{e9}<<site-key>", "<site-key>"), "\u{e9}<<site-key>");
    assert_eq!(fake_page("nothing <site-ke", "k"), "nothing <site-ke");
    assert_eq!(fake_page("", "k"), "");
}

#[test]
fn clearance_cookie_is_found_for_any_domain() {
    assert!(has_clearance_cookie(&Some(vec![
        raw("x", None),
        raw("cf_clearance", None)
    ])));
    assert!(!has_clearance_cookie(&Some(vec![raw("CF_clearance", None)])));
    assert!(!has_clearance_cookie(&None));
}

#[test]
fn same_site_rules_have_their_words() {
    let session = session_from(
        &vec![
            raw("a", Some(SameSite::Strict)),
            raw("b", Some(SameSite::Lax)),
            raw("c", Some(SameSite::Unrestricted)),
        ],
        "UA".to_string(),
    );
    let words: Vec<&str> = session
        .cookies
        .iter()
        .map(|c| c.same_site.as_deref().unwrap())
        .collect();
    assert_eq!(words, vec!["Strict", "Lax", "None"]);
}

#[test]
fn only_text_counts_as_text() {
    assert_eq!(text_from(Evaluated::Text("x".to_string())), "x");
    assert_eq!(text_from(Evaluated::NotText), "");
    assert_eq!(text_from(Evaluated::Nothing), "");
}

#[test]
fn strings_are_compared_and_searched_as_the_standard_library_does() {
    let samples = ["", "a", "A", "ab", "aB", "\u{e9}a", "\u{c9}A", "[", "{", "aab", "Zz", "zZ"];
    for s in samples {
        for p in samples {
            assert_eq!(text::eq_ignore_ascii_case(s, p), s.eq_ignore_ascii_case(p));
            assert_eq!(text::starts_with(s, p), s.starts_with(p));
            assert_eq!(text::contains(s, p), s.contains(p));
            assert_eq!(text::same(s, p), s == p);
            if !p.is_empty() {
                assert_eq!(text::replace(s, p, "--"), s.replace(p, "--"));
            }
        }
    }
}

#[test]
fn a_permit_that_was_not_granted_is_not_given_back() {
    let mut solve = get_source(URL, None);
    solve.step(SolveEvent::Failed(ChaserError::Internal("full".to_string())));
    assert!(matches!(solve.pending(), SolveAction::Finish));
}

#[test]
fn a_context_is_asked_for_only_under_a_permit() {
    let mut solve = session(WafSessionOptions::default());
    solve.step(SolveEvent::Context(Some("ctx".to_string())));
    assert!(matches!(solve.pending(), SolveAction::AcquirePermit));
    solve.step(SolveEvent::Done);
    assert!(matches!(solve.pending(), SolveAction::CreateContext { .. }));
    solve.step(SolveEvent::Failed(ChaserError::Internal("no".to_string())));
    release(&mut solve);
}
