//! The pierced document tree, and the search for the challenge widget in it.

use crate::text::{contains, eq_ignore_ascii_case, occurs_in, same, same_ignoring_case, starts_with};
use vstd::prelude::*;

verus! {

/// A node of a pierced document tree: its own identity and attributes, and
/// every way down from it.
#[derive(Debug)]
pub struct Node {
    pub node_id: i64,
    pub node_name: String,
    /// Names and values in turn.
    pub attributes: Option<Vec<String>>,
    pub children: Option<Vec<Node>>,
    pub shadow_roots: Option<Vec<Node>>,
    pub content_document: Option<Box<Node>>,
    pub template_content: Option<Box<Node>>,
}

/// What there is to click: the widget's iframe and, where the browser exposes
/// it, the checkbox inside.
#[derive(Debug, Clone, Copy, PartialEq, Eq, Structural)]
pub struct ChallengeTarget {
    pub iframe_node_id: i64,
    pub checkbox_node_id: Option<i64>,
}

/// The nodes that `nodes` may hold.
pub open spec fn listed(nodes: Option<Vec<Node>>) -> Seq<Node> {
    match nodes {
        Some(v) => v@,
        None => Seq::empty(),
    }
}

/// The value of the first attribute, from position `at` on, whose name is
/// `name` up to the case of ASCII letters. A name without a value counts for
/// nothing.
pub open spec fn attribute_from(list: Seq<String>, name: Seq<char>, at: int) -> Option<Seq<char>>
    decreases list.len() - at,
{
    if at < 0 || at + 1 >= list.len() {
        None
    } else if same_ignoring_case(list[at]@, name) {
        Some(list[at + 1]@)
    } else {
        attribute_from(list, name, at + 2)
    }
}

/// The value of the attribute `name` of `node`.
pub open spec fn attribute_of(node: Node, name: Seq<char>) -> Option<Seq<char>> {
    match node.attributes {
        Some(list) => attribute_from(list@, name, 0),
        None => None,
    }
}

/// `node` is the input in which the widget leaves its response.
pub open spec fn response_input(node: Node) -> bool {
    &&& same_ignoring_case(node.node_name@, "input"@)
    &&& attribute_of(node, "name"@) == Some("cf-turnstile-response"@)
}

/// `node` is the iframe of a widget.
pub open spec fn turnstile_iframe(node: Node) -> bool {
    &&& same_ignoring_case(node.node_name@, "iframe"@)
    &&& {
        ||| attribute_of(node, "id"@) matches Some(id) && "cf-chl-widget-"@.is_prefix_of(id)
        ||| attribute_of(node, "src"@) matches Some(src) && occurs_in(
            src,
            "challenges.cloudflare.com"@,
        ) && occurs_in(src, "turnstile"@)
    }
}

/// `node` is a checkbox, by its role or by its type.
pub open spec fn checkbox(node: Node) -> bool {
    ||| attribute_of(node, "role"@) matches Some(role) && same_ignoring_case(role, "checkbox"@)
    ||| same_ignoring_case(node.node_name@, "input"@) && (attribute_of(node, "type"@) matches Some(
        kind,
    ) && same_ignoring_case(kind, "checkbox"@))
}

/// `node` and everything below it, each node before what hangs from it:
/// children, then shadow roots, then the document it frames, then the content
/// of the template it is.
pub open spec fn preorder(node: Node) -> Seq<Node>
    decreases node,
{
    seq![node] + (match node.children {
        Some(v) => preorder_all(v@),
        None => Seq::empty(),
    }) + (match node.shadow_roots {
        Some(v) => preorder_all(v@),
        None => Seq::empty(),
    }) + (match node.content_document {
        Some(b) => preorder(*b),
        None => Seq::empty(),
    }) + (match node.template_content {
        Some(b) => preorder(*b),
        None => Seq::empty(),
    })
}

/// The `preorder` of each of `nodes`, one after the other.
pub open spec fn preorder_all(nodes: Seq<Node>) -> Seq<Node>
    decreases nodes,
{
    if nodes.len() == 0 {
        Seq::empty()
    } else {
        preorder(nodes[0]) + preorder_all(nodes.drop_first())
    }
}

/// As `preorder`, without the contents of templates, which are never shown.
pub open spec fn shown(node: Node) -> Seq<Node>
    decreases node,
{
    seq![node] + (match node.children {
        Some(v) => shown_all(v@),
        None => Seq::empty(),
    }) + (match node.shadow_roots {
        Some(v) => shown_all(v@),
        None => Seq::empty(),
    }) + (match node.content_document {
        Some(b) => shown(*b),
        None => Seq::empty(),
    })
}

/// The `shown` of each of `nodes`, one after the other.
pub open spec fn shown_all(nodes: Seq<Node>) -> Seq<Node>
    decreases nodes,
{
    if nodes.len() == 0 {
        Seq::empty()
    } else {
        shown(nodes[0]) + shown_all(nodes.drop_first())
    }
}

/// What `f` gives for the first node of `nodes` for which it gives anything.
pub open spec fn first_some<T>(nodes: Seq<Node>, f: spec_fn(Node) -> Option<T>) -> Option<T>
    decreases nodes.len(),
{
    if nodes.len() == 0 {
        None
    } else {
        match f(nodes[0]) {
            Some(t) => Some(t),
            None => first_some(nodes.drop_first(), f),
        }
    }
}

/// A widget's iframe itself, and nothing for any other node.
pub open spec fn itself_if_iframe() -> spec_fn(Node) -> Option<Node> {
    |n: Node|
        if turnstile_iframe(n) {
            Some(n)
        } else {
            None
        }
}

/// The identity of a checkbox, and nothing for any other node.
pub open spec fn id_if_checkbox() -> spec_fn(Node) -> Option<i64> {
    |n: Node|
        if checkbox(n) {
            Some(n.node_id)
        } else {
            None
        }
}

/// The first widget iframe at or below `node`.
pub open spec fn first_iframe(node: Node) -> Option<Node> {
    first_some(preorder(node), itself_if_iframe())
}

/// The first checkbox that is shown at or below `node`.
pub open spec fn first_checkbox(node: Node) -> Option<i64> {
    first_some(shown(node), id_if_checkbox())
}

/// What there is to click in the widget iframe `iframe`.
pub open spec fn target_in(iframe: Node) -> ChallengeTarget {
    ChallengeTarget { iframe_node_id: iframe.node_id, checkbox_node_id: first_checkbox(iframe) }
}

/// The first widget iframe at or below a node that is no response input.
pub open spec fn iframe_beside_input() -> spec_fn(Node) -> Option<Node> {
    |n: Node|
        if response_input(n) {
            None
        } else {
            first_iframe(n)
        }
}

/// One of `nodes` is a response input.
pub open spec fn has_response_input(nodes: Seq<Node>) -> bool {
    exists|i: int| 0 <= i < nodes.len() && response_input(#[trigger] nodes[i])
}

/// The widget iframe that `node` itself leads to: that of a sibling of a
/// response input among its children, else `node` where it is such an iframe.
pub open spec fn own_iframe(node: Node) -> Option<Node> {
    let beside = if has_response_input(listed(node.children)) {
        first_some(listed(node.children), iframe_beside_input())
    } else {
        None
    };
    if beside is Some {
        beside
    } else if turnstile_iframe(node) {
        Some(node)
    } else {
        None
    }
}

/// `own_iframe`, as what there is to click in it.
pub open spec fn own_target() -> spec_fn(Node) -> Option<ChallengeTarget> {
    |n: Node|
        match own_iframe(n) {
            Some(iframe) => Some(target_in(iframe)),
            None => None,
        }
}

/// What there is to click in the tree under `node`: what the first node that
/// leads to a widget iframe leads to.
pub open spec fn challenge_target(node: Node) -> Option<ChallengeTarget> {
    first_some(preorder(node), own_target())
}

pub proof fn lemma_first_some_concat<T>(
    a: Seq<Node>,
    b: Seq<Node>,
    f: spec_fn(Node) -> Option<T>,
)
    ensures
        first_some(a + b, f) == (match first_some(a, f) {
            Some(t) => Some(t),
            None => first_some(b, f),
        }),
    decreases a.len(),
{
    if a.len() == 0 {
        assert(a + b =~= b);
    } else {
        assert((a + b).drop_first() =~= a.drop_first() + b);
        lemma_first_some_concat(a.drop_first(), b, f);
    }
}

/// `a` where it is something, else `b`.
pub open spec fn first_of<T>(a: Option<T>, b: Option<T>) -> Option<T> {
    match a {
        Some(t) => Some(t),
        None => b,
    }
}

/// The order in which a search of what is shown at or below `node` goes.
pub proof fn lemma_search_shown<T>(node: Node, f: spec_fn(Node) -> Option<T>)
    ensures
        first_some(shown(node), f) == first_of(
            first_of(
                first_of(
                    f(node),
                    match node.children {
                        Some(v) => first_some(shown_all(v@), f),
                        None => None,
                    },
                ),
                match node.shadow_roots {
                    Some(v) => first_some(shown_all(v@), f),
                    None => None,
                },
            ),
            match node.content_document {
                Some(b) => first_some(shown(*b), f),
                None => None,
            },
        ),
{
    let own = seq![node];
    let below = match node.children {
        Some(v) => shown_all(v@),
        None => Seq::empty(),
    };
    let roots = match node.shadow_roots {
        Some(v) => shown_all(v@),
        None => Seq::empty(),
    };
    let framed = match node.content_document {
        Some(b) => shown(*b),
        None => Seq::empty(),
    };
    assert(shown(node) == own + below + roots + framed);
    lemma_first_some_concat(own + below + roots, framed, f);
    lemma_first_some_concat(own + below, roots, f);
    lemma_first_some_concat(own, below, f);
    reveal_with_fuel(first_some, 2);
    assert(own.drop_first() =~= Seq::empty());
}

/// The order in which a search of everything at or below `node` goes.
pub proof fn lemma_search_all<T>(node: Node, f: spec_fn(Node) -> Option<T>)
    ensures
        first_some(preorder(node), f) == first_of(
            first_of(
                first_of(
                    first_of(
                        f(node),
                        match node.children {
                            Some(v) => first_some(preorder_all(v@), f),
                            None => None,
                        },
                    ),
                    match node.shadow_roots {
                        Some(v) => first_some(preorder_all(v@), f),
                        None => None,
                    },
                ),
                match node.content_document {
                    Some(b) => first_some(preorder(*b), f),
                    None => None,
                },
            ),
            match node.template_content {
                Some(b) => first_some(preorder(*b), f),
                None => None,
            },
        ),
{
    let own = seq![node];
    let below = match node.children {
        Some(v) => preorder_all(v@),
        None => Seq::empty(),
    };
    let roots = match node.shadow_roots {
        Some(v) => preorder_all(v@),
        None => Seq::empty(),
    };
    let framed = match node.content_document {
        Some(b) => preorder(*b),
        None => Seq::empty(),
    };
    let templated = match node.template_content {
        Some(b) => preorder(*b),
        None => Seq::empty(),
    };
    assert(preorder(node) == own + below + roots + framed + templated);
    lemma_first_some_concat(own + below + roots + framed, templated, f);
    lemma_first_some_concat(own + below + roots, framed, f);
    lemma_first_some_concat(own + below, roots, f);
    lemma_first_some_concat(own, below, f);
    reveal_with_fuel(first_some, 2);
    assert(own.drop_first() =~= Seq::empty());
}

/// The value of the attribute `name`, compared without regard to ASCII case.
pub fn attribute<'a>(node: &'a Node, name: &str) -> (value: Option<&'a str>)
    ensures
        match value {
            Some(v) => attribute_of(*node, name@) == Some(v@),
            None => attribute_of(*node, name@) is None,
        },
{
    let list: &Vec<String> = match &node.attributes {
        Some(list) => list,
        None => {
            return None;
        },
    };
    let pairs: usize = list.len() / 2;
    let mut k: usize = 0;
    while k < pairs
        invariant
            k <= pairs,
            pairs == list.len() / 2,
            attribute_of(*node, name@) == attribute_from(list@, name@, 2 * k as int),
        decreases pairs - k,
    {
        if eq_ignore_ascii_case(list[2 * k].as_str(), name) {
            return Some(list[2 * k + 1].as_str());
        }
        k += 1;
    }
    None
}

/// Whether the attribute `name` is there and equals `expected` up to ASCII case.
fn attribute_is(node: &Node, name: &str, expected: &str) -> (is: bool)
    ensures
        is == (attribute_of(*node, name@) matches Some(v) && same_ignoring_case(v, expected@)),
{
    match attribute(node, name) {
        Some(value) => eq_ignore_ascii_case(value, expected),
        None => false,
    }
}

/// Whether `node` is the input in which the widget leaves its response.
pub fn is_turnstile_response_input(node: &Node) -> (is: bool)
    ensures
        is == response_input(*node),
{
    if !eq_ignore_ascii_case(node.node_name.as_str(), "input") {
        return false;
    }
    match attribute(node, "name") {
        Some(value) => same(value, "cf-turnstile-response"),
        None => false,
    }
}

/// Whether `node` is the iframe of a widget, by its id or by what it loads.
pub fn is_turnstile_iframe(node: &Node) -> (is: bool)
    ensures
        is == turnstile_iframe(*node),
{
    if !eq_ignore_ascii_case(node.node_name.as_str(), "iframe") {
        return false;
    }
    let by_id: bool = match attribute(node, "id") {
        Some(id) => starts_with(id, "cf-chl-widget-"),
        None => false,
    };
    if by_id {
        return true;
    }
    match attribute(node, "src") {
        Some(src) => contains(src, "challenges.cloudflare.com") && contains(src, "turnstile"),
        None => false,
    }
}

/// Whether `node` is a checkbox, by its role or by its type.
pub fn is_checkbox(node: &Node) -> (is: bool)
    ensures
        is == checkbox(*node),
{
    attribute_is(node, "role", "checkbox") || (eq_ignore_ascii_case(
        node.node_name.as_str(),
        "input",
    ) && attribute_is(node, "type", "checkbox"))
}

/// The first checkbox that is shown at or below `node`.
pub fn find_checkbox_node(node: &Node) -> (found: Option<i64>)
    ensures
        found == first_checkbox(*node),
    decreases node,
{
    proof {
        lemma_search_shown(*node, id_if_checkbox());
    }
    if is_checkbox(node) {
        return Some(node.node_id);
    }
    if let Some(children) = &node.children {
        if let Some(id) = find_checkbox_in(children) {
            return Some(id);
        }
    }
    if let Some(shadow_roots) = &node.shadow_roots {
        if let Some(id) = find_checkbox_in(shadow_roots) {
            return Some(id);
        }
    }
    if let Some(document) = &node.content_document {
        return find_checkbox_node(document);
    }
    None
}

/// The first checkbox that is shown at or below one of `nodes`.
fn find_checkbox_in(nodes: &Vec<Node>) -> (found: Option<i64>)
    ensures
        found == first_some(shown_all(nodes@), id_if_checkbox()),
    decreases nodes,
{
    let ghost f = id_if_checkbox();
    let mut i: usize = 0;
    assert(nodes@.skip(0) =~= nodes@);
    while i < nodes.len()
        invariant
            i <= nodes.len(),
            f == id_if_checkbox(),
            first_some(shown_all(nodes@), f) == first_some(shown_all(nodes@.skip(i as int)), f),
        decreases nodes.len() - i,
    {
        proof {
            let rest = nodes@.skip(i as int);
            assert(rest.drop_first() =~= nodes@.skip(i + 1));
            lemma_first_some_concat(shown(rest[0]), shown_all(rest.drop_first()), f);
        }
        if let Some(id) = find_checkbox_node(&nodes[i]) {
            return Some(id);
        }
        i += 1;
    }
    None
}

/// The first widget iframe at or below `node`.
pub fn find_turnstile_iframe(node: &Node) -> (found: Option<&Node>)
    ensures
        match found {
            Some(iframe) => first_iframe(*node) == Some(*iframe),
            None => first_iframe(*node) is None,
        },
    decreases node,
{
    proof {
        lemma_search_all(*node, itself_if_iframe());
    }
    if is_turnstile_iframe(node) {
        return Some(node);
    }
    if let Some(children) = &node.children {
        if let Some(iframe) = find_iframe_in(children) {
            return Some(iframe);
        }
    }
    if let Some(shadow_roots) = &node.shadow_roots {
        if let Some(iframe) = find_iframe_in(shadow_roots) {
            return Some(iframe);
        }
    }
    if let Some(document) = &node.content_document {
        if let Some(iframe) = find_turnstile_iframe(document) {
            return Some(iframe);
        }
    }
    if let Some(template) = &node.template_content {
        return find_turnstile_iframe(template);
    }
    None
}

/// The first widget iframe at or below one of `nodes`.
fn find_iframe_in(nodes: &Vec<Node>) -> (found: Option<&Node>)
    ensures
        match found {
            Some(iframe) => first_some(preorder_all(nodes@), itself_if_iframe()) == Some(*iframe),
            None => first_some(preorder_all(nodes@), itself_if_iframe()) is None,
        },
    decreases nodes,
{
    let ghost f = itself_if_iframe();
    let mut i: usize = 0;
    assert(nodes@.skip(0) =~= nodes@);
    while i < nodes.len()
        invariant
            i <= nodes.len(),
            f == itself_if_iframe(),
            first_some(preorder_all(nodes@), f) == first_some(
                preorder_all(nodes@.skip(i as int)),
                f,
            ),
        decreases nodes.len() - i,
    {
        proof {
            let rest = nodes@.skip(i as int);
            assert(rest.drop_first() =~= nodes@.skip(i + 1));
            lemma_first_some_concat(preorder(rest[0]), preorder_all(rest.drop_first()), f);
        }
        if let Some(iframe) = find_turnstile_iframe(&nodes[i]) {
            return Some(iframe);
        }
        i += 1;
    }
    None
}

/// What there is to click in the widget iframe `iframe`. The framed document
/// may hang from it as such or as a child: the checkbox is looked for in both.
pub fn target_from_iframe(iframe: &Node) -> (target: ChallengeTarget)
    ensures
        target == target_in(*iframe),
{
    ChallengeTarget {
        iframe_node_id: iframe.node_id,
        checkbox_node_id: find_checkbox_node(iframe),
    }
}

/// Whether one of `nodes` is a response input.
fn any_response_input(nodes: &Vec<Node>) -> (found: bool)
    ensures
        found == has_response_input(nodes@),
{
    let mut i: usize = 0;
    while i < nodes.len()
        invariant
            i <= nodes.len(),
            forall|k: int| 0 <= k < i ==> !response_input(#[trigger] nodes@[k]),
        decreases nodes.len() - i,
    {
        if is_turnstile_response_input(&nodes[i]) {
            return true;
        }
        i += 1;
    }
    false
}

/// The first widget iframe at or below one of `nodes` that is no response input.
fn find_iframe_beside_input(nodes: &Vec<Node>) -> (found: Option<&Node>)
    ensures
        match found {
            Some(iframe) => first_some(nodes@, iframe_beside_input()) == Some(*iframe),
            None => first_some(nodes@, iframe_beside_input()) is None,
        },
{
    let ghost f = iframe_beside_input();
    let mut i: usize = 0;
    assert(nodes@.skip(0) =~= nodes@);
    while i < nodes.len()
        invariant
            i <= nodes.len(),
            f == iframe_beside_input(),
            first_some(nodes@, f) == first_some(nodes@.skip(i as int), f),
        decreases nodes.len() - i,
    {
        assert(nodes@.skip(i as int).drop_first() =~= nodes@.skip(i + 1));
        if !is_turnstile_response_input(&nodes[i]) {
            if let Some(iframe) = find_turnstile_iframe(&nodes[i]) {
                return Some(iframe);
            }
        }
        i += 1;
    }
    None
}

/// What there is to click in the tree under `node`. The response input stands
/// beside the shadow host of its widget, so an iframe below a sibling of such
/// an input comes first; any widget iframe does where there is no such pair.
pub fn find_challenge_target(node: &Node) -> (found: Option<ChallengeTarget>)
    ensures
        found == challenge_target(*node),
    decreases node,
{
    proof {
        lemma_search_all(*node, own_target());
    }
    if let Some(children) = &node.children {
        if any_response_input(children) {
            if let Some(iframe) = find_iframe_beside_input(children) {
                return Some(target_from_iframe(iframe));
            }
        }
    }
    if is_turnstile_iframe(node) {
        return Some(target_from_iframe(node));
    }
    if let Some(children) = &node.children {
        if let Some(target) = find_target_in(children) {
            return Some(target);
        }
    }
    if let Some(shadow_roots) = &node.shadow_roots {
        if let Some(target) = find_target_in(shadow_roots) {
            return Some(target);
        }
    }
    if let Some(document) = &node.content_document {
        if let Some(target) = find_challenge_target(document) {
            return Some(target);
        }
    }
    if let Some(template) = &node.template_content {
        return find_challenge_target(template);
    }
    None
}

/// What there is to click in the first of the trees under `nodes` that has it.
fn find_target_in(nodes: &Vec<Node>) -> (found: Option<ChallengeTarget>)
    ensures
        found == first_some(preorder_all(nodes@), own_target()),
    decreases nodes,
{
    let ghost f = own_target();
    let mut i: usize = 0;
    assert(nodes@.skip(0) =~= nodes@);
    while i < nodes.len()
        invariant
            i <= nodes.len(),
            f == own_target(),
            first_some(preorder_all(nodes@), f) == first_some(
                preorder_all(nodes@.skip(i as int)),
                f,
            ),
        decreases nodes.len() - i,
    {
        proof {
            let rest = nodes@.skip(i as int);
            assert(rest.drop_first() =~= nodes@.skip(i + 1));
            lemma_first_some_concat(preorder(rest[0]), preorder_all(rest.drop_first()), f);
        }
        if let Some(target) = find_challenge_target(&nodes[i]) {
            return Some(target);
        }
        i += 1;
    }
    None
}

/// A search gives something exactly when one of the nodes does, and then what
/// the first such node gives.
pub proof fn lemma_first_some<T>(nodes: Seq<Node>, f: spec_fn(Node) -> Option<T>)
    ensures
        match first_some(nodes, f) {
            Some(t) => exists|i: int|
                0 <= i < nodes.len() && f(#[trigger] nodes[i]) == Some(t) && forall|j: int|
                    0 <= j < i ==> f(#[trigger] nodes[j]) is None,
            None => forall|i: int| 0 <= i < nodes.len() ==> f(#[trigger] nodes[i]) is None,
        },
    decreases nodes.len(),
{
    if nodes.len() > 0 && f(nodes[0]) is None {
        let rest = nodes.drop_first();
        lemma_first_some(rest, f);
        assert forall|j: int| 0 < j < nodes.len() implies #[trigger] nodes[j] == rest[j - 1] by {}
        match first_some(rest, f) {
            Some(t) => {
                let i = choose|i: int|
                    0 <= i < rest.len() && f(#[trigger] rest[i]) == Some(t) && forall|j: int|
                        0 <= j < i ==> f(#[trigger] rest[j]) is None;
                assert(nodes[i + 1] == rest[i]);
            },
            None => {},
        }
    }
}

/// What hangs from one of `nodes` hangs from `nodes`.
proof fn lemma_preorder_all_holds(nodes: Seq<Node>, i: int, n: Node)
    requires
        0 <= i < nodes.len(),
        preorder(nodes[i]).contains(n),
    ensures
        preorder_all(nodes).contains(n),
    decreases nodes.len(),
{
    let head = preorder(nodes[0]);
    let rest = preorder_all(nodes.drop_first());
    if i == 0 {
        let k = choose|k: int| 0 <= k < head.len() && head[k] == n;
        assert((head + rest)[k] == n);
    } else {
        lemma_preorder_all_holds(nodes.drop_first(), i - 1, n);
        let k = choose|k: int| 0 <= k < rest.len() && rest[k] == n;
        assert((head + rest)[head.len() + k] == n);
    }
}

/// What hangs from a child of `node` hangs from `node`.
proof fn lemma_preorder_holds_children(node: Node, i: int, n: Node)
    requires
        0 <= i < listed(node.children).len(),
        preorder(listed(node.children)[i]).contains(n),
    ensures
        preorder(node).contains(n),
{
    let below = preorder_all(listed(node.children));
    lemma_preorder_all_holds(listed(node.children), i, n);
    let k = choose|k: int| 0 <= k < below.len() && below[k] == n;
    assert(preorder(node)[k + 1] == n);
}

/// What hangs from one of what hangs from `nodes` hangs from `nodes`.
proof fn lemma_preorder_all_transitive(nodes: Seq<Node>, m: Node, n: Node)
    requires
        preorder_all(nodes).contains(m),
        preorder(m).contains(n),
    ensures
        preorder_all(nodes).contains(n),
    decreases nodes,
{
    let head = preorder(nodes[0]);
    let rest = preorder_all(nodes.drop_first());
    let k = choose|k: int| 0 <= k < preorder_all(nodes).len() && preorder_all(nodes)[k] == m;
    if k < head.len() {
        assert(head[k] == m);
        lemma_preorder_transitive(nodes[0], m, n);
        lemma_preorder_all_holds(nodes, 0, n);
    } else {
        assert(rest[k - head.len()] == m);
        lemma_preorder_all_transitive(nodes.drop_first(), m, n);
        let j = choose|j: int| 0 <= j < rest.len() && rest[j] == n;
        assert((head + rest)[head.len() + j] == n);
    }
}

/// What hangs from what hangs from `node` hangs from `node`.
pub proof fn lemma_preorder_transitive(node: Node, m: Node, n: Node)
    requires
        preorder(node).contains(m),
        preorder(m).contains(n),
    ensures
        preorder(node).contains(n),
    decreases node,
{
    let own = seq![node];
    let below = match node.children {
        Some(v) => preorder_all(v@),
        None => Seq::empty(),
    };
    let roots = match node.shadow_roots {
        Some(v) => preorder_all(v@),
        None => Seq::empty(),
    };
    let framed = match node.content_document {
        Some(b) => preorder(*b),
        None => Seq::empty(),
    };
    let templated = match node.template_content {
        Some(b) => preorder(*b),
        None => Seq::empty(),
    };
    let all = own + below + roots + framed + templated;
    assert(preorder(node) == all);
    let k = choose|k: int| 0 <= k < all.len() && all[k] == m;
    if k == 0 {
    } else if k < 1 + below.len() {
        assert(below[k - 1] == m);
        lemma_preorder_all_transitive(node.children->0@, m, n);
        let j = choose|j: int| 0 <= j < below.len() && below[j] == n;
        assert(all[1 + j] == n);
    } else if k < 1 + below.len() + roots.len() {
        assert(roots[k - 1 - below.len()] == m);
        lemma_preorder_all_transitive(node.shadow_roots->0@, m, n);
        let j = choose|j: int| 0 <= j < roots.len() && roots[j] == n;
        assert(all[1 + below.len() + j] == n);
    } else if k < 1 + below.len() + roots.len() + framed.len() {
        assert(framed[k - 1 - below.len() - roots.len()] == m);
        lemma_preorder_transitive(*node.content_document->0, m, n);
        let j = choose|j: int| 0 <= j < framed.len() && framed[j] == n;
        assert(all[1 + below.len() + roots.len() + j] == n);
    } else {
        assert(templated[k - 1 - below.len() - roots.len() - framed.len()] == m);
        lemma_preorder_transitive(*node.template_content->0, m, n);
        let j = choose|j: int| 0 <= j < templated.len() && templated[j] == n;
        assert(all[1 + below.len() + roots.len() + framed.len() + j] == n);
    }
}

/// An iframe that the search settles on hangs from the node it started from.
proof fn lemma_own_iframe(node: Node)
    ensures
        own_iframe(node) matches Some(iframe) ==> turnstile_iframe(iframe) && preorder(
            node,
        ).contains(iframe),
        turnstile_iframe(node) ==> own_iframe(node) is Some,
{
    assert(preorder(node)[0] == node);
    let children = listed(node.children);
    lemma_first_some(children, iframe_beside_input());
    if has_response_input(children) {
        if let Some(iframe) = first_some(children, iframe_beside_input()) {
            let i = choose|i: int|
                0 <= i < children.len() && iframe_beside_input()(#[trigger] children[i]) == Some(
                    iframe,
                );
            lemma_first_some(preorder(children[i]), itself_if_iframe());
            assert(preorder(children[i]).contains(iframe));
            lemma_preorder_holds_children(node, i, iframe);
        }
    }
}

/// There is something to click in a tree exactly when a widget iframe hangs
/// somewhere in it, through children, shadow roots, framed documents and
/// template contents alike.
pub proof fn law_target_exists_iff_iframe_does(node: Node)
    ensures
        challenge_target(node) is Some <==> exists|i: int|
            0 <= i < preorder(node).len() && turnstile_iframe(#[trigger] preorder(node)[i]),
        challenge_target(node) is Some <==> first_iframe(node) is Some,
{
    let all = preorder(node);
    lemma_first_some(all, own_target());
    lemma_first_some(all, itself_if_iframe());
    if challenge_target(node) is Some {
        let i = choose|i: int| 0 <= i < all.len() && own_target()(#[trigger] all[i]) is Some;
        lemma_own_iframe(all[i]);
        let iframe = own_iframe(all[i])->0;
        assert(all.contains(all[i]));
        lemma_preorder_transitive(node, all[i], iframe);
        let k = choose|k: int| 0 <= k < all.len() && all[k] == iframe;
        assert(turnstile_iframe(all[k]));
    }
    assert forall|i: int| 0 <= i < all.len() && turnstile_iframe(#[trigger] all[i]) implies (
    own_target()(all[i]) is Some && itself_if_iframe()(all[i]) is Some) by {
        lemma_own_iframe(all[i]);
    }
}

/// What is found is a widget iframe of the tree, with the first checkbox that
/// is shown in that very iframe.
pub proof fn law_target_is_an_iframe_of_the_tree(node: Node)
    requires
        challenge_target(node) is Some,
    ensures
        exists|i: int|
            0 <= i < preorder(node).len() && turnstile_iframe(#[trigger] preorder(node)[i])
                && challenge_target(node) == Some(target_in(preorder(node)[i])),
{
    let all = preorder(node);
    lemma_first_some(all, own_target());
    let i = choose|i: int|
        0 <= i < all.len() && own_target()(#[trigger] all[i]) == challenge_target(node);
    lemma_own_iframe(all[i]);
    let iframe = own_iframe(all[i])->0;
    assert(all.contains(all[i]));
    lemma_preorder_transitive(node, all[i], iframe);
    let k = choose|k: int| 0 <= k < all.len() && all[k] == iframe;
    assert(turnstile_iframe(all[k]));
}

/// Where a response input stands beside a node with a widget iframe below it,
/// that pair decides, whatever else the tree holds.
pub proof fn law_iframe_beside_response_input_is_preferred(node: Node, i: int, k: int)
    requires
        0 <= i < listed(node.children).len(),
        response_input(listed(node.children)[i]),
        0 <= k < listed(node.children).len(),
        !response_input(listed(node.children)[k]),
        first_iframe(listed(node.children)[k]) is Some,
        forall|j: int|
            0 <= j < k ==> response_input(#[trigger] listed(node.children)[j]) || first_iframe(
                listed(node.children)[j],
            ) is None,
    ensures
        challenge_target(node) == Some(target_in(first_iframe(listed(node.children)[k])->0)),
{
    let children = listed(node.children);
    lemma_first_some(children, iframe_beside_input());
    assert(iframe_beside_input()(children[k]) is Some);
    assert(forall|j: int|
        0 <= j < k ==> iframe_beside_input()(#[trigger] children[j]) is None);
    assert(preorder(node)[0] == node);
    assert(own_target()(preorder(node)[0]) is Some);
}

/// The checkbox of a target is there exactly when the iframe shows one, and is
/// then the first.
pub proof fn law_checkbox_is_the_first_shown(iframe: Node)
    ensures
        match target_in(iframe).checkbox_node_id {
            Some(id) => exists|i: int|
                0 <= i < shown(iframe).len() && checkbox(#[trigger] shown(iframe)[i])
                    && shown(iframe)[i].node_id == id && forall|j: int|
                    0 <= j < i ==> !checkbox(#[trigger] shown(iframe)[j]),
            None => forall|i: int|
                0 <= i < shown(iframe).len() ==> !checkbox(#[trigger] shown(iframe)[i]),
        },
{
    let all = shown(iframe);
    let f = id_if_checkbox();
    lemma_first_some(all, f);
    match first_some(all, f) {
        Some(id) => {
            let i = choose|i: int|
                0 <= i < all.len() && f(#[trigger] all[i]) == Some(id) && forall|j: int|
                    0 <= j < i ==> f(#[trigger] all[j]) is None;
            assert(checkbox(all[i]));
            assert forall|j: int| 0 <= j < i implies !checkbox(#[trigger] all[j]) by {
                assert(f(all[j]) is None);
            }
        },
        None => {
            assert forall|i: int| 0 <= i < all.len() implies !checkbox(#[trigger] all[i]) by {
                assert(f(all[i]) is None);
            }
        },
    }
}

} // verus!
