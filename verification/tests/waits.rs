use chaser_cf::clearance::{
    wait_for_clearance, ClearanceAction, ClearanceEvent, ClearancePhase, ClearanceWait,
};
use chaser_cf::error::ChaserError;
use chaser_cf::models::{Evaluated, RawCookie};
use chaser_cf::time::{millis, Elapsed};
use chaser_cf::token::{
    wait_for_turnstile_token, TokenAction, TokenEvent, TokenWait, TOKEN_PROBE_SCRIPT,
    TURNSTILE_EXTRACTOR_SCRIPT,
};

fn ms(n: u64) -> Elapsed {
    Elapsed {
        secs: n / 1000,
        subsec_nanos: (n % 1000) as u32 * 1_000_000,
    }
}

fn cookie(name: &str) -> RawCookie {
    RawCookie {
        name: name.to_string(),
        value: "v".to_string(),
        domain: "d".to_string(),
        path: "/".to_string(),
        expires_bits: 0,
        http_only: false,
        secure: false,
        same_site: None,
    }
}

fn no_cookie(wait: &mut ClearanceWait) {
    assert_eq!(wait.pending(), ClearanceAction::ReadCookies);
    wait.step(ClearanceEvent::Cookies(Some(vec![cookie("other")])));
}

fn clock(wait: &mut ClearanceWait, n: u64) {
    assert_eq!(wait.pending(), ClearanceAction::ReadClock);
    wait.step(ClearanceEvent::Clock(ms(n)));
}

fn pause(wait: &mut ClearanceWait) {
    assert_eq!(wait.pending(), ClearanceAction::Sleep(400));
    wait.step(ClearanceEvent::Slept);
}

#[test]
fn clearance_cookie_ends_the_wait_after_a_pause() {
    let mut wait = wait_for_clearance(30);
    assert_eq!(wait.pending(), ClearanceAction::ReadCookies);
    wait.step(ClearanceEvent::Cookies(Some(vec![
        cookie("a"),
        cookie("cf_clearance"),
    ])));
    assert_eq!(wait.pending(), ClearanceAction::Sleep(500));
    wait.step(ClearanceEvent::Slept);
    assert_eq!(wait.pending(), ClearanceAction::Return);
    wait.step(ClearanceEvent::Slept);
    assert_eq!(wait.phase, ClearancePhase::Done);
}

#[test]
fn nothing_is_clicked_in_the_passive_window() {
    let mut wait = wait_for_clearance(30);
    no_cookie(&mut wait);
    clock(&mut wait, 5_000);
    clock(&mut wait, 5_999);
    pause(&mut wait);
    no_cookie(&mut wait);
    clock(&mut wait, 6_000);
    clock(&mut wait, 6_000);
    clock(&mut wait, 6_000);
    assert_eq!(wait.pending(), ClearanceAction::TryClick);
}

#[test]
fn clicks_keep_their_distance() {
    let mut wait = wait_for_clearance(30);
    no_cookie(&mut wait);
    clock(&mut wait, 7_000);
    clock(&mut wait, 7_000);
    clock(&mut wait, 7_000);
    assert_eq!(wait.pending(), ClearanceAction::TryClick);
    wait.step(ClearanceEvent::Clicked(true));
    clock(&mut wait, 8_000);
    assert_eq!(wait.last_click, Some(8_000_000_000));
    pause(&mut wait);
    no_cookie(&mut wait);
    clock(&mut wait, 8_400);
    clock(&mut wait, 8_400);
    clock(&mut wait, 9_199);
    pause(&mut wait);
    no_cookie(&mut wait);
    clock(&mut wait, 9_200);
    clock(&mut wait, 9_200);
    clock(&mut wait, 9_200);
    assert_eq!(wait.pending(), ClearanceAction::TryClick);
}

#[test]
fn a_failed_click_may_be_retried_at_once() {
    let mut wait = wait_for_clearance(30);
    for _ in 0..2 {
        no_cookie(&mut wait);
        clock(&mut wait, 7_000);
        clock(&mut wait, 7_000);
        clock(&mut wait, 7_000);
        assert_eq!(wait.pending(), ClearanceAction::TryClick);
        wait.step(ClearanceEvent::Clicked(false));
        assert_eq!(wait.last_click, None);
        pause(&mut wait);
    }
}

#[test]
fn clearance_wait_ends_when_time_is_up() {
    let mut wait = wait_for_clearance(30);
    assert_eq!(wait.pending(), ClearanceAction::ReadCookies);
    wait.step(ClearanceEvent::Cookies(None));
    clock(&mut wait, 30_000);
    assert_eq!(wait.pending(), ClearanceAction::Return);
}

#[test]
fn an_event_out_of_turn_changes_nothing() {
    let mut wait = wait_for_clearance(30);
    let before = wait;
    wait.step(ClearanceEvent::Clicked(true));
    wait.step(ClearanceEvent::Slept);
    assert_eq!(wait, before);
}

fn looked(wait: &mut TokenWait, evaluated: Evaluated) {
    assert!(matches!(wait.pending(), TokenAction::ReadClock));
    wait.step(TokenEvent::Clock(ms(60_000)));
    assert!(matches!(wait.pending(), TokenAction::Evaluate(s) if s == TOKEN_PROBE_SCRIPT));
    wait.step(TokenEvent::Evaluated(evaluated));
}

#[test]
fn a_long_enough_string_is_the_token() {
    let mut wait = wait_for_turnstile_token(60);
    for evaluated in [
        Evaluated::Failed,
        Evaluated::Nothing,
        Evaluated::NotText,
        Evaluated::Text("0123456789".to_string()),
    ] {
        looked(&mut wait, evaluated);
        assert!(matches!(wait.pending(), TokenAction::Sleep(500)));
        wait.step(TokenEvent::Slept);
    }
    looked(&mut wait, Evaluated::Text("0.abc123456".to_string()));
    assert!(matches!(wait.pending(), TokenAction::Return));
    assert_eq!(wait.result(), Some(Ok("0.abc123456".to_string())));
}

#[test]
fn token_length_is_counted_in_bytes() {
    let mut wait = wait_for_turnstile_token(60);
    looked(
        &mut wait,
        Evaluated::Text("\u{e9}\u{e9}\u{e9}\u{e9}\u{e9}\u{e9}".to_string()),
    );
    assert!(matches!(wait.pending(), TokenAction::Return));
}

#[test]
fn token_wait_fails_after_its_time() {
    let mut wait = wait_for_turnstile_token(60);
    wait.step(TokenEvent::Clock(Elapsed {
        secs: 60,
        subsec_nanos: 1,
    }));
    assert!(matches!(wait.pending(), TokenAction::Return));
    assert_eq!(
        wait.result(),
        Some(Err(ChaserError::CaptchaFailed(
            "timeout waiting for token".to_string()
        )))
    );
}

#[test]
fn an_open_token_wait_has_no_result() {
    assert_eq!(wait_for_turnstile_token(60).result(), None);
}

#[test]
fn scripts_agree_on_the_input() {
    assert!(TOKEN_PROBE_SCRIPT.contains("[name=\"cf-response\"]"));
    assert!(TURNSTILE_EXTRACTOR_SCRIPT.contains("c.name = \"cf-response\""));
}

#[test]
fn milliseconds_are_whole_and_reduced() {
    assert_eq!(millis(1_999_999), 1);
    assert_eq!(millis(60_000_000_000), 60_000);
    assert_eq!(millis((u64::MAX as u128 + 5) * 1_000_000), 4);
    assert_eq!(ms(1_500).as_nanos(), 1_500_000_000);
}

#[test]
fn readings_that_were_not_asked_for_count_for_nothing() {
    let mut wait = wait_for_clearance(30);
    wait.step(ClearanceEvent::Clock(ms(60_000)));
    no_cookie(&mut wait);
    clock(&mut wait, 10);
    wait.step(ClearanceEvent::Cookies(Some(vec![cookie("cf_clearance")])));
    clock(&mut wait, 10);
    pause(&mut wait);

    let mut token = wait_for_turnstile_token(60);
    token.step(TokenEvent::Evaluated(Evaluated::Text("0.abc123456".to_string())));
    assert!(matches!(token.pending(), TokenAction::ReadClock));
    assert_eq!(token.result(), None);
}
