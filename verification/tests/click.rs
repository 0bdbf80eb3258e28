use chaser_cf::click::{
    click_attempt, try_click_challenge, ChallengeClickMode, ClickAction, ClickAttempt, ClickEvent,
};
use chaser_cf::dom::Node;

fn node(id: i64, name: &str, attributes: &[&str], children: Vec<Node>) -> Node {
    Node {
        node_id: id,
        node_name: name.to_string(),
        attributes: Some(attributes.iter().map(|a| a.to_string()).collect()),
        children: Some(children),
        shadow_roots: None,
        content_document: None,
        template_content: None,
    }
}

fn page(with_checkbox: bool) -> Node {
    let inside = if with_checkbox {
        vec![node(9, "input", &["type", "checkbox"], vec![])]
    } else {
        vec![]
    };
    node(
        1,
        "body",
        &[],
        vec![node(4, "iframe", &["id", "cf-chl-widget-1"], inside)],
    )
}

fn begun(steps: u8) -> ClickAttempt {
    let attempt = click_attempt(steps, 50);
    assert_eq!(
        attempt.pending(),
        ClickAction::GetDocument {
            depth: -1,
            pierce: true
        }
    );
    attempt
}

fn finish(mut attempt: ClickAttempt, pauses: Vec<u64>) -> Vec<ClickAction> {
    let mut seen = Vec::new();
    attempt.step(ClickEvent::Area(true));
    attempt.step(ClickEvent::Path(pauses));
    loop {
        let action = attempt.pending();
        seen.push(action);
        let event = match action {
            ClickAction::MoveTo(_) => ClickEvent::Moved(true),
            ClickAction::Sleep(_) => ClickEvent::Slept,
            ClickAction::Click => ClickEvent::Clicked(true),
            _ => return seen,
        };
        attempt.step(event);
    }
}

#[test]
fn checkbox_is_clicked_along_the_whole_path() {
    let mut attempt = begun(3);
    attempt.step(ClickEvent::Document(Some(page(true))));
    assert_eq!(attempt.pending(), ClickAction::GetBoxModel(9));
    assert_eq!(attempt.mode, ChallengeClickMode::ElementCenter);
    attempt.step(ClickEvent::BoxModel(Some(8)));
    assert_eq!(attempt.pending(), ClickAction::Measure);
    assert_eq!(
        finish(attempt, vec![10, 80, 200]),
        vec![
            ClickAction::MoveTo(0),
            ClickAction::Sleep(10),
            ClickAction::MoveTo(1),
            ClickAction::Sleep(80),
            ClickAction::MoveTo(2),
            ClickAction::Sleep(80),
            ClickAction::Sleep(50),
            ClickAction::Click,
            ClickAction::Return(true),
        ]
    );
}

#[test]
fn iframe_stands_in_for_an_unreadable_checkbox() {
    let mut attempt = begun(2);
    attempt.step(ClickEvent::Document(Some(page(true))));
    attempt.step(ClickEvent::BoxModel(None));
    assert_eq!(attempt.pending(), ClickAction::GetBoxModel(4));
    attempt.step(ClickEvent::BoxModel(Some(8)));
    attempt.step(ClickEvent::Area(true));
    assert_eq!(
        attempt.pending(),
        ClickAction::PlanPath {
            mode: ChallengeClickMode::IframeCheckboxRegion,
            points: 2
        }
    );
}

#[test]
fn unreadable_iframe_ends_the_attempt() {
    let mut attempt = begun(2);
    attempt.step(ClickEvent::Document(Some(page(false))));
    assert_eq!(attempt.pending(), ClickAction::GetBoxModel(4));
    attempt.step(ClickEvent::BoxModel(None));
    assert_eq!(attempt.pending(), ClickAction::Return(false));
    attempt.step(ClickEvent::BoxModel(Some(8)));
    assert_eq!(attempt.pending(), ClickAction::Return(false));
}

#[test]
fn no_document_or_no_widget_ends_the_attempt() {
    let mut attempt = begun(2);
    attempt.step(ClickEvent::Document(None));
    assert_eq!(attempt.pending(), ClickAction::Return(false));

    let mut attempt = begun(2);
    attempt.step(ClickEvent::Document(Some(node(1, "body", &[], vec![]))));
    assert_eq!(attempt.pending(), ClickAction::Return(false));
}

#[test]
fn malformed_or_flat_box_ends_the_attempt() {
    let mut attempt = begun(2);
    attempt.step(ClickEvent::Document(Some(page(false))));
    attempt.step(ClickEvent::BoxModel(Some(7)));
    assert_eq!(attempt.pending(), ClickAction::Return(false));

    let mut attempt = begun(2);
    attempt.step(ClickEvent::Document(Some(page(false))));
    attempt.step(ClickEvent::BoxModel(Some(8)));
    attempt.step(ClickEvent::Area(false));
    assert_eq!(attempt.pending(), ClickAction::Return(false));
}

#[test]
fn failed_move_or_click_ends_the_attempt() {
    for fail_move in [true, false] {
        let mut attempt = begun(1);
        attempt.step(ClickEvent::Document(Some(page(false))));
        attempt.step(ClickEvent::BoxModel(Some(8)));
        attempt.step(ClickEvent::Area(true));
        attempt.step(ClickEvent::Path(vec![1, 2]));
        assert!(matches!(attempt.pending(), ClickAction::PlanPath { .. }));
        attempt.step(ClickEvent::Path(vec![1]));
        attempt.step(ClickEvent::Moved(!fail_move));
        if !fail_move {
            attempt.step(ClickEvent::Slept);
            attempt.step(ClickEvent::Slept);
            assert_eq!(attempt.pending(), ClickAction::Click);
            attempt.step(ClickEvent::Clicked(false));
        }
        assert_eq!(attempt.pending(), ClickAction::Return(false));
    }
}

#[test]
fn chance_stays_within_its_bounds() {
    let mut many_steps = Vec::new();
    for _ in 0..500 {
        let attempt = try_click_challenge();
        assert!((12..22).contains(&attempt.steps));
        assert!((40..120).contains(&attempt.click_pause_ms));
        many_steps.push(attempt.steps);
    }
    many_steps.sort();
    many_steps.dedup();
    assert!(many_steps.len() > 1);
}

#[test]
fn moves_and_clicks_that_were_not_asked_for_count_for_nothing() {
    let mut attempt = begun(2);
    attempt.step(ClickEvent::Moved(true));
    attempt.step(ClickEvent::Clicked(true));
    attempt.step(ClickEvent::Document(Some(page(false))));
    attempt.step(ClickEvent::Clicked(true));
    assert_eq!(attempt.pending(), ClickAction::GetBoxModel(4));
    attempt.step(ClickEvent::BoxModel(Some(8)));
    assert_eq!(
        finish(attempt, vec![1, 2])
            .iter()
            .filter(|a| matches!(a, ClickAction::MoveTo(_)))
            .count(),
        2
    );
}
