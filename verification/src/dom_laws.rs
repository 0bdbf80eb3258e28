//! What a search of a document tree finds, stated over the ways down the tree.

use crate::dom::{
    challenge_target, checkbox, first_checkbox, first_iframe, first_some, has_response_input,
    id_if_checkbox, iframe_beside_input, itself_if_iframe, lemma_first_some,
    lemma_first_some_concat, lemma_search_all, lemma_search_shown, listed, own_iframe, own_target,
    preorder, preorder_all, response_input, shown, shown_all, target_in, turnstile_iframe, Node,
};
use vstd::prelude::*;

verus! {

/// One step down from a node.
pub enum Step {
    Child(int),
    ShadowRoot(int),
    Framed,
    Templated,
}

/// The node that a step from `node` leads to.
pub open spec fn down(node: Node, step: Step) -> Option<Node> {
    match step {
        Step::Child(i) => match node.children {
            Some(v) => if 0 <= i < v@.len() {
                Some(v@[i])
            } else {
                None
            },
            None => None,
        },
        Step::ShadowRoot(i) => match node.shadow_roots {
            Some(v) => if 0 <= i < v@.len() {
                Some(v@[i])
            } else {
                None
            },
            None => None,
        },
        Step::Framed => match node.content_document {
            Some(b) => Some(*b),
            None => None,
        },
        Step::Templated => match node.template_content {
            Some(b) => Some(*b),
            None => None,
        },
    }
}

/// The node that a way down from `node` leads to.
pub open spec fn follow(node: Node, way: Seq<Step>) -> Option<Node>
    decreases way.len(),
{
    if way.len() == 0 {
        Some(node)
    } else {
        match down(node, way[0]) {
            Some(next) => follow(next, way.drop_first()),
            None => None,
        }
    }
}

/// What hangs from a node by step `a` comes before what hangs from it by step
/// `b`: children come before shadow roots, these before the framed document,
/// and that before the content of a template; among children, and among shadow
/// roots, the earlier comes first.
pub open spec fn step_before(a: Step, b: Step) -> bool {
    match (a, b) {
        (Step::Child(i), Step::Child(j)) => i < j,
        (Step::Child(_), _) => true,
        (Step::ShadowRoot(i), Step::ShadowRoot(j)) => i < j,
        (Step::ShadowRoot(_), Step::Framed) => true,
        (Step::ShadowRoot(_), Step::Templated) => true,
        (Step::Framed, Step::Templated) => true,
        _ => false,
    }
}

/// The way `a` leads to a place earlier in the document than the way `b`.
pub open spec fn before(a: Seq<Step>, b: Seq<Step>) -> bool
    decreases b.len(),
{
    if b.len() == 0 {
        false
    } else if a.len() == 0 {
        true
    } else if a[0] == b[0] {
        before(a.drop_first(), b.drop_first())
    } else {
        step_before(a[0], b[0])
    }
}

/// A way that stays out of templates, unless they count.
pub open spec fn allowed(way: Seq<Step>, templates: bool) -> bool {
    templates || forall|i: int| 0 <= i < way.len() ==> #[trigger] way[i] != Step::Templated
}

/// Nothing at or below `node` gives anything.
pub open spec fn none_under<T>(
    node: Node,
    f: spec_fn(Node) -> Option<T>,
    templates: bool,
) -> bool {
    forall|way: Seq<Step>|
        allowed(way, templates) ==> (#[trigger] follow(node, way) matches Some(n) ==> f(n) is None)
}

/// The way leads to a node that gives `t`, and no earlier way to one that
/// gives anything.
pub open spec fn first_at<T>(
    node: Node,
    f: spec_fn(Node) -> Option<T>,
    templates: bool,
    way: Seq<Step>,
    t: T,
) -> bool {
    &&& allowed(way, templates)
    &&& follow(node, way) matches Some(n) && f(n) == Some(t)
    &&& forall|other: Seq<Step>|
        allowed(other, templates) && before(other, way) ==> (#[trigger] follow(
            node,
            other,
        ) matches Some(m) ==> f(m) is None)
}

/// What a search of the tree under `node` gives.
spec fn searched<T>(node: Node, f: spec_fn(Node) -> Option<T>, templates: bool) -> Option<T> {
    if templates {
        first_some(preorder(node), f)
    } else {
        first_some(shown(node), f)
    }
}

/// What a search of the trees under `nodes` gives.
spec fn searched_all<T>(
    nodes: Seq<Node>,
    f: spec_fn(Node) -> Option<T>,
    templates: bool,
) -> Option<T> {
    if templates {
        first_some(preorder_all(nodes), f)
    } else {
        first_some(shown_all(nodes), f)
    }
}

spec fn search_settled<T>(node: Node, f: spec_fn(Node) -> Option<T>, templates: bool) -> bool {
    match searched(node, f, templates) {
        Some(t) => exists|way: Seq<Step>| first_at(node, f, templates, way, t),
        None => none_under(node, f, templates),
    }
}

spec fn found_in_list<T>(
    nodes: Seq<Node>,
    f: spec_fn(Node) -> Option<T>,
    templates: bool,
    i: int,
    way: Seq<Step>,
    t: T,
) -> bool {
    &&& 0 <= i < nodes.len()
    &&& first_at(nodes[i], f, templates, way, t)
    &&& forall|j: int| 0 <= j < i ==> none_under(#[trigger] nodes[j], f, templates)
}

spec fn list_settled<T>(nodes: Seq<Node>, f: spec_fn(Node) -> Option<T>, templates: bool) -> bool {
    match searched_all(nodes, f, templates) {
        Some(t) => exists|i: int, way: Seq<Step>| found_in_list(nodes, f, templates, i, way, t),
        None => forall|j: int| 0 <= j < nodes.len() ==> none_under(#[trigger] nodes[j], f, templates),
    }
}

proof fn lemma_list<T>(nodes: Seq<Node>, f: spec_fn(Node) -> Option<T>, templates: bool)
    ensures
        list_settled(nodes, f, templates),
    decreases nodes, 0int,
{
    if nodes.len() > 0 {
        let rest = nodes.drop_first();
        lemma_tree(nodes[0], f, templates);
        lemma_list(rest, f, templates);
        lemma_first_some_concat(preorder(nodes[0]), preorder_all(rest), f);
        lemma_first_some_concat(shown(nodes[0]), shown_all(rest), f);
        assert forall|j: int| 0 < j < nodes.len() implies #[trigger] nodes[j] == rest[j - 1] by {}
        match searched(nodes[0], f, templates) {
            Some(t) => {
                let way = choose|way: Seq<Step>| first_at(nodes[0], f, templates, way, t);
                assert(found_in_list(nodes, f, templates, 0, way, t));
            },
            None => {
                match searched_all(rest, f, templates) {
                    Some(t) => {
                        let (i, way) = choose|i: int, way: Seq<Step>|
                            found_in_list(rest, f, templates, i, way, t);
                        assert(nodes[i + 1] == rest[i]);
                        assert(found_in_list(nodes, f, templates, i + 1, way, t));
                    },
                    None => {},
                }
            },
        }
    } else {
        assert(preorder_all(nodes) =~= Seq::empty());
        assert(shown_all(nodes) =~= Seq::empty());
    }
}

/// A way with a step in front leads where the way leads from where the step does.
proof fn lemma_prefix(node: Node, step: Step, way: Seq<Step>, templates: bool)
    ensures
        follow(node, seq![step] + way) == (match down(node, step) {
            Some(next) => follow(next, way),
            None => None,
        }),
        allowed(seq![step] + way, templates) <==> allowed(way, templates) && (templates || step
            != Step::Templated),
{
    let whole = seq![step] + way;
    assert(whole.drop_first() =~= way);
    if !templates {
        assert(whole[0] == step);
        assert forall|i: int| 0 <= i < way.len() implies whole[i + 1] == #[trigger] way[i] by {}
        if allowed(whole, templates) {
            assert forall|i: int| 0 <= i < way.len() implies #[trigger] way[i]
                != Step::Templated by {
                assert(whole[i + 1] != Step::Templated);
            }
        }
    }
}

/// A way that is not empty is its first step and the rest.
proof fn lemma_split(way: Seq<Step>)
    requires
        way.len() > 0,
    ensures
        way == seq![way[0]] + way.drop_first(),
{
    assert(way =~= seq![way[0]] + way.drop_first());
}

/// What hangs by earlier steps gives nothing, so the first that gives
/// something below `step` is the first of all.
proof fn lemma_lift<T>(
    node: Node,
    f: spec_fn(Node) -> Option<T>,
    templates: bool,
    step: Step,
    way: Seq<Step>,
    t: T,
)
    requires
        f(node) is None,
        templates || step != Step::Templated,
        down(node, step) matches Some(next) && first_at(next, f, templates, way, t),
        forall|s: Step|
            step_before(s, step) && (templates || s != Step::Templated) ==> (#[trigger] down(
                node,
                s,
            ) matches Some(m) ==> none_under(m, f, templates)),
    ensures
        first_at(node, f, templates, seq![step] + way, t),
{
    let whole = seq![step] + way;
    lemma_prefix(node, step, way, templates);
    assert forall|other: Seq<Step>|
        allowed(other, templates) && before(other, whole) implies (#[trigger] follow(
        node,
        other,
    ) matches Some(m) ==> f(m) is None) by {
        if other.len() > 0 {
            let rest = other.drop_first();
            lemma_split(other);
            lemma_prefix(node, other[0], rest, templates);
            assert(whole.drop_first() =~= way);
            if let Some(next) = down(node, other[0]) {
                assert(follow(node, other) == follow(next, rest));
                if other[0] == step {
                    assert(before(rest, way));
                } else {
                    assert(step_before(other[0], step));
                    assert(none_under(next, f, templates));
                }
            }
        }
    }
}

proof fn lemma_tree<T>(node: Node, f: spec_fn(Node) -> Option<T>, templates: bool)
    ensures
        search_settled(node, f, templates),
    decreases node, 1int,
{
    lemma_search_all(node, f);
    lemma_search_shown(node, f);
    if let Some(t) = f(node) {
        let here = Seq::<Step>::empty();
        assert(follow(node, here) == Some(node));
        assert(first_at(node, f, templates, here, t));
    } else {
        lemma_below(node, f, templates);
    }
}

proof fn lemma_below<T>(node: Node, f: spec_fn(Node) -> Option<T>, templates: bool)
    requires
        f(node) is None,
    ensures
        search_settled(node, f, templates),
    decreases node, 0int,
{
    lemma_search_all(node, f);
    lemma_search_shown(node, f);
    if let Some(v) = node.children {
        lemma_list(v@, f, templates);
    }
    if let Some(v) = node.shadow_roots {
        lemma_list(v@, f, templates);
    }
    if let Some(b) = node.content_document {
        lemma_tree(*b, f, templates);
    }
    if templates {
        if let Some(b) = node.template_content {
            lemma_tree(*b, f, templates);
        }
    }
    let in_children = match node.children {
        Some(v) => searched_all(v@, f, templates),
        None => None,
    };
    let in_roots = match node.shadow_roots {
        Some(v) => searched_all(v@, f, templates),
        None => None,
    };
    let in_frame = match node.content_document {
        Some(b) => searched(*b, f, templates),
        None => None,
    };
    let in_template = match node.template_content {
        Some(b) => if templates {
            searched(*b, f, templates)
        } else {
            None
        },
        None => None,
    };
    if let Some(t) = in_children {
        let v = node.children->0@;
        let (i, way) = choose|i: int, way: Seq<Step>| found_in_list(v, f, templates, i, way, t);
        assert(down(node, Step::Child(i)) == Some(v[i]));
        lemma_lift(node, f, templates, Step::Child(i), way, t);
        assert(first_at(node, f, templates, seq![Step::Child(i)] + way, t));
    } else if let Some(t) = in_roots {
        let v = node.shadow_roots->0@;
        let (i, way) = choose|i: int, way: Seq<Step>| found_in_list(v, f, templates, i, way, t);
        assert(down(node, Step::ShadowRoot(i)) == Some(v[i]));
        lemma_lift(node, f, templates, Step::ShadowRoot(i), way, t);
        assert(first_at(node, f, templates, seq![Step::ShadowRoot(i)] + way, t));
    } else if let Some(t) = in_frame {
        let b = *node.content_document->0;
        let way = choose|way: Seq<Step>| first_at(b, f, templates, way, t);
        lemma_lift(node, f, templates, Step::Framed, way, t);
        assert(first_at(node, f, templates, seq![Step::Framed] + way, t));
    } else if let Some(t) = in_template {
        let b = *node.template_content->0;
        let way = choose|way: Seq<Step>| first_at(b, f, templates, way, t);
        lemma_lift(node, f, templates, Step::Templated, way, t);
        assert(first_at(node, f, templates, seq![Step::Templated] + way, t));
    } else {
        assert forall|way: Seq<Step>| allowed(way, templates) implies (#[trigger] follow(
            node,
            way,
        ) matches Some(n) ==> f(n) is None) by {
            if way.len() > 0 {
                let rest = way.drop_first();
                lemma_split(way);
                lemma_prefix(node, way[0], rest, templates);
                if let Some(next) = down(node, way[0]) {
                    assert(follow(node, way) == follow(next, rest));
                    assert(none_under(next, f, templates));
                }
            }
        }
    }
}

/// Whatever is looked for in the whole of a tree, what is found is what stands
/// earliest in the document, whichever children, shadow roots, framed documents
/// and templates lead there; and nothing is found only where no way leads to it.
pub proof fn law_whole_tree_is_searched_in_document_order<T>(
    node: Node,
    f: spec_fn(Node) -> Option<T>,
)
    ensures
        match first_some(preorder(node), f) {
            Some(t) => exists|way: Seq<Step>| first_at(node, f, true, way, t),
            None => forall|way: Seq<Step>|
                (#[trigger] follow(node, way)) matches Some(n) ==> f(n) is None,
        },
{
    lemma_tree(node, f, true);
}

/// The same of what is shown: ways into templates alone are left out.
pub proof fn law_shown_tree_is_searched_in_document_order<T>(
    node: Node,
    f: spec_fn(Node) -> Option<T>,
)
    ensures
        match first_some(shown(node), f) {
            Some(t) => exists|way: Seq<Step>| first_at(node, f, false, way, t),
            None => forall|way: Seq<Step>|
                allowed(way, false) ==> ((#[trigger] follow(node, way)) matches Some(n) ==> f(
                    n,
                ) is None),
        },
{
    lemma_tree(node, f, false);
}

/// What is shown under `node` is exactly what some way leads to that stays out
/// of templates; in particular `node` itself, and whatever is shown under any
/// child, under any shadow root and under the framed document.
pub proof fn law_shown_is_what_ways_lead_to(node: Node, n: Node)
    ensures
        shown(node).contains(n) <==> exists|way: Seq<Step>|
            allowed(way, false) && #[trigger] follow(node, way) == Some(n),
        shown(node).contains(node),
        forall|i: int|
            0 <= i < listed(node.children).len() && shown(#[trigger] listed(node.children)[i]).contains(n)
                ==> shown(node).contains(n),
        forall|i: int|
            0 <= i < listed(node.shadow_roots).len() && shown(
                #[trigger] listed(node.shadow_roots)[i],
            ).contains(n) ==> shown(node).contains(n),
        node.content_document matches Some(b) && shown(*b).contains(n) ==> shown(node).contains(n),
{
    lemma_shown_ways(node, n);
    lemma_shown_ways(node, node);
    assert(follow(node, Seq::<Step>::empty()) == Some(node));
    assert(allowed(Seq::<Step>::empty(), false));
    assert forall|i: int|
        0 <= i < listed(node.children).len() && shown(
            #[trigger] listed(node.children)[i],
        ).contains(n) implies shown(node).contains(n) by {
        lemma_shown_below(node, Step::Child(i), n);
    }
    assert forall|i: int|
        0 <= i < listed(node.shadow_roots).len() && shown(
            #[trigger] listed(node.shadow_roots)[i],
        ).contains(n) implies shown(node).contains(n) by {
        lemma_shown_below(node, Step::ShadowRoot(i), n);
    }
    if let Some(b) = node.content_document {
        if shown(*b).contains(n) {
            lemma_shown_below(node, Step::Framed, n);
        }
    }
}

proof fn lemma_shown_ways(node: Node, n: Node)
    ensures
        shown(node).contains(n) <==> exists|way: Seq<Step>|
            allowed(way, false) && #[trigger] follow(node, way) == Some(n),
{
    let f = |m: Node|
        if m == n {
            Some(true)
        } else {
            None
        };
    let all = shown(node);
    lemma_first_some(all, f);
    lemma_tree(node, f, false);
    if all.contains(n) {
        let i = choose|i: int| 0 <= i < all.len() && all[i] == n;
        assert(f(all[i]) is Some);
        let t = first_some(all, f)->0;
        let way = choose|way: Seq<Step>| first_at(node, f, false, way, t);
        assert(follow(node, way) == Some(n));
    }
    if exists|way: Seq<Step>| allowed(way, false) && #[trigger] follow(node, way) == Some(n) {
        assert(first_some(all, f) is Some);
    }
}

proof fn lemma_shown_below(node: Node, step: Step, n: Node)
    requires
        step != Step::Templated,
        down(node, step) matches Some(next) && shown(next).contains(n),
    ensures
        shown(node).contains(n),
{
    let next = down(node, step)->0;
    lemma_shown_ways(next, n);
    lemma_shown_ways(node, n);
    let way = choose|way: Seq<Step>| allowed(way, false) && #[trigger] follow(next, way) == Some(n);
    lemma_prefix(node, step, way, false);
    assert(follow(node, seq![step] + way) == Some(n));
}

/// A checkbox that can be reached from the iframe, through any children, shadow
/// roots and framed documents, is never overlooked; and the one that is chosen
/// is the earliest in the document.
pub proof fn law_reachable_checkbox_is_found(iframe: Node)
    ensures
        target_in(iframe).iframe_node_id == iframe.node_id,
        target_in(iframe).checkbox_node_id is Some <==> exists|way: Seq<Step>|
            allowed(way, false) && ((#[trigger] follow(iframe, way)) matches Some(n) && checkbox(n)),
        target_in(iframe).checkbox_node_id matches Some(id) ==> exists|way: Seq<Step>|
            allowed(way, false) && (#[trigger] follow(iframe, way) matches Some(n) && checkbox(n)
                && n.node_id == id) && forall|other: Seq<Step>|
                allowed(other, false) && before(other, way) ==> (#[trigger] follow(
                    iframe,
                    other,
                ) matches Some(m) ==> !checkbox(m)),
{
    let f = id_if_checkbox();
    lemma_tree(iframe, f, false);
    match first_checkbox(iframe) {
        Some(id) => {
            let way = choose|way: Seq<Step>| first_at(iframe, f, false, way, id);
            let n = follow(iframe, way)->0;
            assert(checkbox(n) && n.node_id == id);
            assert forall|other: Seq<Step>| allowed(other, false) && before(other, way) implies (
            #[trigger] follow(iframe, other) matches Some(m) ==> !checkbox(m)) by {
                if let Some(m) = follow(iframe, other) {
                    assert(f(m) is None);
                }
            }
        },
        None => {
            assert forall|way: Seq<Step>| allowed(way, false) implies !(#[trigger] follow(
                iframe,
                way,
            ) matches Some(n) && checkbox(n)) by {
                if let Some(n) = follow(iframe, way) {
                    assert(f(n) is None);
                }
            }
        },
    }
}

/// A widget iframe that can be reached from `node`, by any way, is never
/// overlooked; and the one that is found is the earliest in the document.
pub proof fn law_reachable_iframe_is_found(node: Node)
    ensures
        first_iframe(node) is Some <==> exists|way: Seq<Step>|
            ((#[trigger] follow(node, way)) matches Some(n) && turnstile_iframe(n)),
        first_iframe(node) matches Some(iframe) ==> turnstile_iframe(iframe) && exists|
            way: Seq<Step>,
        |
            #[trigger] follow(node, way) == Some(iframe) && forall|other: Seq<Step>|
                before(other, way) ==> (#[trigger] follow(node, other) matches Some(m)
                    ==> !turnstile_iframe(m)),
{
    let f = itself_if_iframe();
    lemma_tree(node, f, true);
    match first_iframe(node) {
        Some(iframe) => {
            let way = choose|way: Seq<Step>| first_at(node, f, true, way, iframe);
            assert(follow(node, way) == Some(iframe));
            assert forall|other: Seq<Step>| before(other, way) implies (#[trigger] follow(
                node,
                other,
            ) matches Some(m) ==> !turnstile_iframe(m)) by {
                if let Some(m) = follow(node, other) {
                    assert(allowed(other, true));
                    assert(f(m) is None);
                }
            }
        },
        None => {
            assert forall|way: Seq<Step>| !(#[trigger] follow(node, way) matches Some(n)
                && turnstile_iframe(n)) by {
                assert(allowed(way, true));
                if let Some(n) = follow(node, way) {
                    assert(f(n) is None);
                }
            }
        },
    }
}

/// What a list that may be missing holds is all of it, in its order, and nothing
/// where it is missing.
pub proof fn law_list_holds_all_its_nodes(nodes: Option<Vec<Node>>)
    ensures
        nodes matches Some(v) ==> listed(nodes).len() == v@.len() && forall|i: int|
            0 <= i < v@.len() ==> #[trigger] listed(nodes)[i] == v@[i],
        nodes is None ==> listed(nodes).len() == 0,
{
}

/// Among the children of `host`, one is a response input, and another, which is
/// none, has a widget iframe at or below it.
pub open spec fn has_pair(host: Node) -> bool {
    &&& exists|i: int|
        0 <= i < listed(host.children).len() && response_input(#[trigger] listed(host.children)[i])
    &&& exists|k: int, way: Seq<Step>|
        0 <= k < listed(host.children).len() && !response_input(listed(host.children)[k]) && (
        #[trigger] follow(listed(host.children)[k], way) matches Some(n) && turnstile_iframe(n))
}

proof fn lemma_own(host: Node)
    ensures
        own_iframe(host) is Some <==> has_pair(host) || turnstile_iframe(host),
        has_pair(host) ==> has_response_input(listed(host.children)) && first_some(
            listed(host.children),
            iframe_beside_input(),
        ) is Some,
        !has_pair(host) && turnstile_iframe(host) ==> own_iframe(host) == Some(host),
{
    let children = listed(host.children);
    lemma_first_some(children, iframe_beside_input());
    if has_pair(host) {
        let (k, way) = choose|k: int, way: Seq<Step>|
            0 <= k < children.len() && !response_input(children[k]) && (#[trigger] follow(
                children[k],
                way,
            ) matches Some(n) && turnstile_iframe(n));
        law_reachable_iframe_is_found(children[k]);
        assert(iframe_beside_input()(children[k]) is Some);
    } else if has_response_input(children) {
        if let Some(iframe) = first_some(children, iframe_beside_input()) {
            let k = choose|k: int|
                0 <= k < children.len() && iframe_beside_input()(#[trigger] children[k]) == Some(
                    iframe,
                );
            law_reachable_iframe_is_found(children[k]);
            let way = choose|way: Seq<Step>| #[trigger] follow(children[k], way) == Some(iframe);
            assert(follow(children[k], way) matches Some(n) && turnstile_iframe(n));
            assert(has_pair(host));
        }
    }
}

/// What is to be clicked in a tree is decided by the earliest node of it that
/// holds such a pair among its children or is a widget iframe itself; there is
/// nothing to click only where there is no such node.
pub proof fn law_earliest_host_decides(node: Node)
    ensures
        match challenge_target(node) {
            Some(target) => exists|way: Seq<Step>|
                {
                    &&& #[trigger] follow(node, way) matches Some(host) && (has_pair(host)
                        || turnstile_iframe(host)) && challenge_target(host) == Some(target)
                    &&& forall|other: Seq<Step>|
                        before(other, way) ==> (#[trigger] follow(node, other) matches Some(m)
                            ==> !has_pair(m) && !turnstile_iframe(m))
                },
            None => forall|way: Seq<Step>|
                (#[trigger] follow(node, way)) matches Some(n) ==> !has_pair(n)
                    && !turnstile_iframe(n),
        },
{
    let f = own_target();
    lemma_tree(node, f, true);
    match challenge_target(node) {
        Some(target) => {
            let way = choose|way: Seq<Step>| first_at(node, f, true, way, target);
            let host = follow(node, way)->0;
            lemma_own(host);
            lemma_search_all(host, f);
            assert(challenge_target(host) == Some(target));
            assert forall|other: Seq<Step>| before(other, way) implies (#[trigger] follow(
                node,
                other,
            ) matches Some(m) ==> !has_pair(m) && !turnstile_iframe(m)) by {
                if let Some(m) = follow(node, other) {
                    assert(allowed(other, true));
                    assert(f(m) is None);
                    lemma_own(m);
                }
            }
        },
        None => {
            assert forall|way: Seq<Step>| (#[trigger] follow(node, way)) is Some implies !has_pair(
                follow(node, way)->0,
            ) && !turnstile_iframe(follow(node, way)->0) by {
                assert(allowed(way, true));
                let n = follow(node, way)->0;
                assert(f(n) is None);
                lemma_own(n);
            }
        },
    }
}

/// A widget iframe without such a pair among its own children is itself what is
/// clicked, with its own checkbox.
pub proof fn law_iframe_without_pair_decides_for_itself(host: Node)
    requires
        turnstile_iframe(host),
        !has_pair(host),
    ensures
        challenge_target(host) == Some(target_in(host)),
        challenge_target(host)->0.iframe_node_id == host.node_id,
{
    lemma_own(host);
    lemma_search_all(host, own_target());
    law_reachable_checkbox_is_found(host);
}

/// Where a node holds such a pair, the iframe is the earliest one below the
/// first child that is no response input and has one.
pub proof fn law_pair_decides_for_its_iframe(host: Node)
    requires
        has_pair(host),
    ensures
        exists|k: int|
            {
                &&& 0 <= k < listed(host.children).len()
                &&& !response_input(#[trigger] listed(host.children)[k])
                &&& first_iframe(listed(host.children)[k]) matches Some(iframe)
                    && challenge_target(host) == Some(target_in(iframe))
                    && challenge_target(host)->0.iframe_node_id == iframe.node_id
                &&& forall|j: int|
                    0 <= j < k ==> response_input(#[trigger] listed(host.children)[j])
                        || first_iframe(listed(host.children)[j]) is None
            },
{
    let children = listed(host.children);
    lemma_own(host);
    lemma_search_all(host, own_target());
    lemma_first_some(children, iframe_beside_input());
    let iframe = first_some(children, iframe_beside_input())->0;
    let k = choose|k: int|
        0 <= k < children.len() && iframe_beside_input()(#[trigger] children[k]) == Some(iframe)
            && forall|j: int|
            0 <= j < k ==> iframe_beside_input()(#[trigger] children[j]) is None;
    law_reachable_checkbox_is_found(iframe);
    assert(!response_input(children[k]) && first_iframe(children[k]) == Some(iframe));
    assert forall|j: int| 0 <= j < k implies response_input(#[trigger] children[j])
        || first_iframe(children[j]) is None by {
        assert(iframe_beside_input()(children[j]) is None);
    }
}

} // verus!
