use chaser_cf::dom::{
    attribute, find_challenge_target, find_checkbox_node, find_turnstile_iframe, is_checkbox,
    is_turnstile_iframe, is_turnstile_response_input, target_from_iframe, ChallengeTarget, Node,
};

fn node(id: i64, name: &str, attributes: &[&str]) -> Node {
    Node {
        node_id: id,
        node_name: name.to_string(),
        attributes: Some(attributes.iter().map(|a| a.to_string()).collect()),
        children: None,
        shadow_roots: None,
        content_document: None,
        template_content: None,
    }
}

fn with_children(mut parent: Node, children: Vec<Node>) -> Node {
    parent.children = Some(children);
    parent
}

fn widget(id: i64) -> Node {
    node(id, "iframe", &["id", "cf-chl-widget-x"])
}

fn response(id: i64) -> Node {
    node(
        id,
        "INPUT",
        &["type", "hidden", "name", "cf-turnstile-response"],
    )
}

fn dumped_challenge_tree(content_document: Option<Node>) -> Node {
    let mut iframe = node(
        4,
        "IFRAME",
        &[
            "id",
            "cf-chl-widget-9uekg",
            "src",
            "https://challenges.cloudflare.com/cdn-cgi/challenge-platform/turnstile/widget",
        ],
    );
    iframe.content_document = content_document.map(Box::new);

    let shadow_root = with_children(node(3, "#document-fragment", &[]), vec![iframe]);
    let mut shadow_host = node(2, "DIV", &[]);
    shadow_host.shadow_roots = Some(vec![shadow_root]);

    with_children(node(1, "DIV", &[]), vec![shadow_host, response(5)])
}

#[test]
fn locates_iframe_when_response_input_is_its_shadow_host_sibling() {
    let tree = dumped_challenge_tree(None);
    let target = find_challenge_target(&tree).expect("challenge target");

    assert_eq!(target.iframe_node_id, 4);
    assert!(target.checkbox_node_id.is_none());
}

#[test]
fn prefers_checkbox_inside_iframe_content_document() {
    let checkbox = node(7, "INPUT", &["type", "checkbox"]);
    let document = with_children(node(6, "#document", &[]), vec![checkbox]);
    let tree = dumped_challenge_tree(Some(document));
    let target = find_challenge_target(&tree).expect("challenge target");

    assert_eq!(target.iframe_node_id, 4);
    assert_eq!(target.checkbox_node_id, Some(7));
}

#[test]
fn attribute_names_ignore_case_and_first_one_wins() {
    let n = node(1, "a", &["HREF", "one", "href", "two", "rest"]);
    assert_eq!(attribute(&n, "href"), Some("one"));
    assert_eq!(attribute(&n, "rest"), None);
    assert_eq!(attribute(&n, "one"), None);
    let mut bare = node(2, "a", &[]);
    bare.attributes = None;
    assert_eq!(attribute(&bare, "href"), None);
}

#[test]
fn response_input_is_told_by_name() {
    assert!(is_turnstile_response_input(&response(1)));
    assert!(!is_turnstile_response_input(&node(
        1,
        "input",
        &["name", "CF-turnstile-response"]
    )));
    assert!(!is_turnstile_response_input(&node(
        1,
        "div",
        &["name", "cf-turnstile-response"]
    )));
}

#[test]
fn widget_iframe_is_told_by_id_or_source() {
    assert!(is_turnstile_iframe(&widget(1)));
    assert!(is_turnstile_iframe(&node(
        1,
        "IFRAME",
        &["src", "https://challenges.cloudflare.com/x/turnstile/y"]
    )));
    assert!(!is_turnstile_iframe(&node(
        1,
        "IFRAME",
        &["src", "https://challenges.cloudflare.com/x"]
    )));
    assert!(!is_turnstile_iframe(&node(
        1,
        "IFRAME",
        &["src", "https://example.com/turnstile"]
    )));
    assert!(!is_turnstile_iframe(&node(
        1,
        "IFRAME",
        &["id", "x-cf-chl-widget-"]
    )));
    assert!(!is_turnstile_iframe(&node(
        1,
        "div",
        &["id", "cf-chl-widget-x"]
    )));
}

#[test]
fn checkbox_is_told_by_role_or_type() {
    assert!(is_checkbox(&node(1, "span", &["role", "CheckBox"])));
    assert!(is_checkbox(&node(1, "Input", &["TYPE", "checkbox"])));
    assert!(!is_checkbox(&node(1, "span", &["type", "checkbox"])));
    assert!(!is_checkbox(&node(1, "input", &["type", "radio"])));
}

#[test]
fn template_contents_are_searched_for_iframes_but_not_for_checkboxes() {
    let mut holder = node(1, "template", &[]);
    holder.template_content = Some(Box::new(with_children(
        node(2, "#document-fragment", &[]),
        vec![widget(3), node(4, "input", &["type", "checkbox"])],
    )));
    assert_eq!(find_turnstile_iframe(&holder).map(|n| n.node_id), Some(3));
    assert_eq!(find_checkbox_node(&holder), None);
    assert_eq!(
        find_challenge_target(&holder),
        Some(ChallengeTarget {
            iframe_node_id: 3,
            checkbox_node_id: None
        })
    );
}

#[test]
fn search_goes_through_children_then_roots_then_documents() {
    let mut host = node(1, "div", &[]);
    host.content_document = Some(Box::new(node(4, "input", &["type", "checkbox"])));
    host.shadow_roots = Some(vec![node(3, "input", &["type", "checkbox"])]);
    assert_eq!(find_checkbox_node(&host), Some(3));
    host.children = Some(vec![
        node(5, "p", &[]),
        node(2, "input", &["type", "checkbox"]),
    ]);
    assert_eq!(find_checkbox_node(&host), Some(2));
}

#[test]
fn iframe_beside_response_input_beats_an_earlier_one() {
    let pair = with_children(
        node(10, "div", &[]),
        vec![response(11), with_children(node(12, "div", &[]), vec![widget(13)])],
    );
    let outer = with_children(widget(1), vec![pair]);
    assert_eq!(find_challenge_target(&outer).map(|t| t.iframe_node_id), Some(1));

    let root = with_children(widget(1), vec![response(2), widget(3)]);
    assert_eq!(find_challenge_target(&root).map(|t| t.iframe_node_id), Some(3));
}

#[test]
fn any_widget_iframe_will_do_without_a_response_input() {
    let root = with_children(
        node(1, "div", &[]),
        vec![node(2, "p", &[]), with_children(node(3, "div", &[]), vec![widget(4)])],
    );
    assert_eq!(find_challenge_target(&root).map(|t| t.iframe_node_id), Some(4));
}

#[test]
fn iframe_inside_the_response_input_itself_is_the_last_resort() {
    let root = with_children(
        node(1, "div", &[]),
        vec![with_children(response(2), vec![widget(3)])],
    );
    assert_eq!(find_challenge_target(&root).map(|t| t.iframe_node_id), Some(3));
}

#[test]
fn a_tree_without_a_widget_has_no_target() {
    let root = with_children(node(1, "div", &[]), vec![response(2), node(3, "iframe", &[])]);
    assert!(find_challenge_target(&root).is_none());
    assert!(find_turnstile_iframe(&root).is_none());
}

#[test]
fn target_of_an_iframe_takes_its_own_checkbox() {
    let iframe = with_children(widget(1), vec![node(2, "input", &["type", "checkbox"])]);
    assert_eq!(
        target_from_iframe(&iframe),
        ChallengeTarget {
            iframe_node_id: 1,
            checkbox_node_id: Some(2)
        }
    );
}
