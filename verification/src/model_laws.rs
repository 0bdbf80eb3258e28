//! What the values of the library say, field by field, and what its
//! comparisons and searches of strings mean.

use crate::dom::{
    attribute_from, attribute_of, checkbox, response_input, turnstile_iframe, Node,
};
use crate::error::{ChaserError, ErrorModel};
use crate::models::{
    cleared, credentials_of, session_of, Cookie, ProxyConfig, ProxyModel, RawCookie, SameSite,
    WafSession,
};
use crate::text::{ascii_lower, occurs_at, occurs_in, replaced, same_ignoring_case};
use crate::time::{short_millis, Elapsed};
use vstd::prelude::*;

verus! {

/// `x` is an ASCII capital and `y` its small letter.
pub open spec fn capital_of(x: char, y: char) -> bool {
    'A' <= x && x <= 'Z' && y as int == x as int + 32
}

/// Two strings are the same up to case exactly when they are equally long and
/// differ, if at all, where one has an ASCII capital and the other its small
/// letter.
pub proof fn law_case_is_all_that_is_ignored(a: Seq<char>, b: Seq<char>)
    ensures
        same_ignoring_case(a, b) <==> a.len() == b.len() && forall|i: int|
            0 <= i < a.len() ==> #[trigger] a[i] == b[i] || capital_of(a[i], b[i]) || capital_of(
                b[i],
                a[i],
            ),
{
    assert forall|x: char, y: char| #[trigger] ascii_lower(x) == #[trigger] ascii_lower(y) <==> x
        == y || capital_of(x, y) || capital_of(y, x) by {}
    if same_ignoring_case(a, b) {
        assert forall|i: int| 0 <= i < a.len() implies #[trigger] a[i] == b[i] || capital_of(
            a[i],
            b[i],
        ) || capital_of(b[i], a[i]) by {
            assert(ascii_lower(a[i]) == ascii_lower(b[i]));
        }
    }
}

/// A string holds another exactly when it is that one with something, perhaps
/// nothing, in front and behind.
pub proof fn law_holding_is_being_a_part(s: Seq<char>, part: Seq<char>)
    ensures
        occurs_in(s, part) <==> exists|front: Seq<char>, back: Seq<char>|
            s == #[trigger] (front + part + back),
{
    if occurs_in(s, part) {
        let at = choose|at: int| occurs_at(s, part, at);
        let front = s.take(at);
        let back = s.skip(at + part.len());
        assert(s =~= front + part + back);
    }
    if exists|front: Seq<char>, back: Seq<char>| s == #[trigger] (front + part + back) {
        let (front, back) = choose|front: Seq<char>, back: Seq<char>|
            s == #[trigger] (front + part + back);
        let at = front.len() as int;
        assert(s.subrange(at, at + part.len()) =~= part);
        assert(occurs_at(s, part, at));
    }
}

/// A string that does not hold what is to be replaced is kept.
pub proof fn law_nothing_to_replace(s: Seq<char>, from: Seq<char>, to: Seq<char>)
    requires
        from.len() > 0,
        !occurs_in(s, from),
    ensures
        replaced(s, from, to) == s,
    decreases s.len(),
{
    if s.len() >= from.len() {
        assert(!occurs_at(s, from, 0));
        let rest = s.skip(1);
        assert forall|at: int| !occurs_at(rest, from, at) by {
            if occurs_at(rest, from, at) {
                assert(rest.subrange(at, at + from.len()) =~= s.subrange(
                    at + 1,
                    at + 1 + from.len(),
                ));
                assert(occurs_at(s, from, at + 1));
            }
        }
        law_nothing_to_replace(rest, from, to);
        assert(seq![s[0]] + rest =~= s);
    }
}

/// The first occurrence is replaced, what stands before it is kept, and what
/// stands after it is treated in the same way.
pub proof fn law_first_occurrence_is_replaced(
    front: Seq<char>,
    from: Seq<char>,
    back: Seq<char>,
    to: Seq<char>,
)
    requires
        from.len() > 0,
        forall|at: int|
            0 <= at < front.len() ==> !#[trigger] occurs_at(front + from + back, from, at),
    ensures
        replaced(front + from + back, from, to) == front + to + replaced(back, from, to),
    decreases front.len(),
{
    let whole = front + from + back;
    if front.len() == 0 {
        assert(whole.subrange(0, from.len() as int) =~= from);
        assert(whole.skip(from.len() as int) =~= back);
        assert(front + to + replaced(back, from, to) =~= to + replaced(back, from, to));
    } else {
        assert(!occurs_at(whole, from, 0));
        let rest = front.skip(1);
        assert(whole.skip(1) =~= rest + from + back);
        assert forall|at: int| 0 <= at < rest.len() implies !#[trigger] occurs_at(
            rest + from + back,
            from,
            at,
        ) by {
            assert(!occurs_at(whole, from, at + 1));
            assert((rest + from + back).subrange(at, at + from.len()) =~= whole.subrange(
                at + 1,
                at + 1 + from.len(),
            ));
        }
        law_first_occurrence_is_replaced(rest, from, back, to);
        assert(seq![whole[0]] + (rest + to + replaced(back, from, to)) =~= front + to + replaced(
            back,
            from,
            to,
        ));
    }
}

/// The pair of entries numbered `k` in a list of names and values is the first
/// of its name.
pub open spec fn first_of_its_name(list: Seq<String>, name: Seq<char>, k: int) -> bool {
    &&& 0 <= k
    &&& 2 * k + 1 < list.len()
    &&& same_ignoring_case(list[2 * k]@, name)
    &&& forall|j: int| 0 <= j < k ==> !same_ignoring_case(#[trigger] list[2 * j]@, name)
}

proof fn lemma_attribute_from(list: Seq<String>, name: Seq<char>, k: int)
    requires
        0 <= k,
        forall|j: int| 0 <= j < k ==> !same_ignoring_case(#[trigger] list[2 * j]@, name),
    ensures
        match attribute_from(list, name, 2 * k) {
            Some(value) => exists|i: int|
                first_of_its_name(list, name, i) && #[trigger] list[2 * i + 1]@ == value,
            None => forall|i: int| !#[trigger] first_of_its_name(list, name, i),
        },
    decreases list.len() - 2 * k,
{
    if 2 * k + 1 < list.len() {
        if same_ignoring_case(list[2 * k]@, name) {
            assert(first_of_its_name(list, name, k));
            assert(list[2 * k + 1]@ == attribute_from(list, name, 2 * k)->0);
        } else {
            lemma_attribute_from(list, name, k + 1);
            assert(2 * k + 2 == 2 * (k + 1));
        }
    } else {
        assert forall|i: int| !#[trigger] first_of_its_name(list, name, i) by {
            if first_of_its_name(list, name, i) {
                assert(i < k);
                assert(!same_ignoring_case(list[2 * i]@, name));
            }
        }
    }
}

/// An attribute has the value of the first pair of its name, whatever the case
/// of its ASCII letters, and none where there is no such pair.
pub proof fn law_attribute_is_the_first_of_its_name(node: Node, name: Seq<char>)
    ensures
        node.attributes is None ==> attribute_of(node, name) is None,
        node.attributes matches Some(list) ==> match attribute_of(node, name) {
            Some(value) => exists|i: int|
                first_of_its_name(list@, name, i) && #[trigger] list@[2 * i + 1]@ == value,
            None => forall|i: int| !#[trigger] first_of_its_name(list@, name, i),
        },
{
    if let Some(list) = node.attributes {
        lemma_attribute_from(list@, name, 0);
    }
}

/// A response input is an input by the name of `cf-turnstile-response`.
pub proof fn law_response_input_is_told_by_its_name(node: Node)
    ensures
        response_input(node) <==> same_ignoring_case(node.node_name@, "input"@) && attribute_of(
            node,
            "name"@,
        ) == Some("cf-turnstile-response"@),
{
}

/// A widget iframe is an iframe whose id goes on from `cf-chl-widget-`, or
/// whose source names both the challenge host and the widget.
pub proof fn law_widget_iframe_is_told_by_id_or_source(node: Node)
    ensures
        turnstile_iframe(node) <==> same_ignoring_case(node.node_name@, "iframe"@) && {
            ||| exists|rest: Seq<char>|
                attribute_of(node, "id"@) == Some(#[trigger] ("cf-chl-widget-"@ + rest))
            ||| attribute_of(node, "src"@) matches Some(src) && {
                &&& exists|front: Seq<char>, back: Seq<char>|
                    src == #[trigger] (front + "challenges.cloudflare.com"@ + back)
                &&& exists|front: Seq<char>, back: Seq<char>|
                    src == #[trigger] (front + "turnstile"@ + back)
            }
        },
{
    let prefix = "cf-chl-widget-"@;
    if let Some(id) = attribute_of(node, "id"@) {
        if prefix.is_prefix_of(id) {
            let rest = id.skip(prefix.len() as int);
            assert(id =~= prefix + rest);
        }
        if exists|rest: Seq<char>| attribute_of(node, "id"@) == Some(#[trigger] (prefix + rest)) {
            let rest = choose|rest: Seq<char>|
                attribute_of(node, "id"@) == Some(#[trigger] (prefix + rest));
            assert(id.subrange(0, prefix.len() as int) =~= prefix);
        }
    }
    if let Some(src) = attribute_of(node, "src"@) {
        law_holding_is_being_a_part(src, "challenges.cloudflare.com"@);
        law_holding_is_being_a_part(src, "turnstile"@);
    }
}

/// A checkbox is any element with that role, or an input of that type.
pub proof fn law_checkbox_is_told_by_role_or_type(node: Node)
    ensures
        checkbox(node) <==> {
            ||| attribute_of(node, "role"@) matches Some(role) && same_ignoring_case(
                role,
                "checkbox"@,
            )
            ||| same_ignoring_case(node.node_name@, "input"@) && (attribute_of(
                node,
                "type"@,
            ) matches Some(kind) && same_ignoring_case(kind, "checkbox"@))
        },
{
}

/// The fields of a cookie are those that the browser reported.
pub open spec fn keeps(cookie: Cookie, raw: RawCookie) -> bool {
    &&& cookie.name@ == raw.name@
    &&& cookie.value@ == raw.value@
    &&& cookie.domain matches Some(domain) && domain@ == raw.domain@
    &&& cookie.path matches Some(path) && path@ == raw.path@
    &&& cookie.expires_bits == Some(raw.expires_bits)
    &&& cookie.http_only == Some(raw.http_only)
    &&& cookie.secure == Some(raw.secure)
    &&& match raw.same_site {
        Some(SameSite::Strict) => cookie.same_site matches Some(word) && word@ == "Strict"@,
        Some(SameSite::Lax) => cookie.same_site matches Some(word) && word@ == "Lax"@,
        Some(SameSite::Unrestricted) => cookie.same_site matches Some(word) && word@ == "None"@,
        None => cookie.same_site is None,
    }
}

/// A session that is made of what the browser reported has as many cookies as
/// were reported, in that order, each with every field as reported, and one
/// header, which gives the browser's own name.
pub proof fn law_session_keeps_every_field(
    session: WafSession,
    raw: Seq<RawCookie>,
    user_agent: Seq<char>,
)
    requires
        session@ == session_of(raw, user_agent),
    ensures
        session.cookies@.len() == raw.len(),
        forall|i: int| 0 <= i < raw.len() ==> keeps(#[trigger] session.cookies@[i], raw[i]),
        session.headers@.len() == 1,
        session.headers@[0].name@ == "user-agent"@,
        session.headers@[0].value@ == user_agent,
{
    let made = session_of(raw, user_agent);
    assert(session@.cookies.len() == made.cookies.len());
    assert forall|i: int| 0 <= i < raw.len() implies keeps(
        #[trigger] session.cookies@[i],
        raw[i],
    ) by {
        assert(session@.cookies[i] == made.cookies[i]);
        assert(session@.cookies[i] == session.cookies@[i]@);
    }
    assert(made.headers.len() == 1 && session@.headers.len() == made.headers.len());
    assert(session@.headers[0] == made.headers[0]);
    assert(session@.headers[0].0 == session.headers@[0].name@);
}

/// What a proxy says is what its fields hold.
pub proof fn law_proxy_says_what_it_holds(proxy: ProxyConfig)
    ensures
        proxy@.host == proxy.host@,
        proxy@.port == proxy.port,
        proxy@.username is Some <==> proxy.username is Some,
        proxy.username matches Some(name) ==> proxy@.username == Some(name@),
        proxy@.password is Some <==> proxy.password is Some,
        proxy.password matches Some(word) ==> proxy@.password == Some(word@),
{
}

/// A proxy is authenticated at exactly when it has both a name and a password,
/// and then with these two.
pub proof fn law_credentials_are_the_proxys_own(proxy: Option<ProxyModel>)
    ensures
        credentials_of(proxy) is Some <==> (proxy matches Some(p) && p.username is Some
            && p.password is Some),
        credentials_of(proxy) matches Some((username, password)) ==> proxy->0.username == Some(
            username,
        ) && proxy->0.password == Some(password),
{
}

/// Clearance is a cookie by the name of `cf_clearance`, of any domain and any
/// value, wherever it stands among the others.
pub proof fn law_clearance_is_told_by_its_name(cookies: Option<Seq<RawCookie>>)
    ensures
        cleared(cookies) <==> (cookies matches Some(list) && exists|i: int|
            0 <= i < list.len() && (#[trigger] list[i]).name@ == "cf_clearance"@),
{
}

/// What an error says is its kind and its words, or its limit.
pub proof fn law_error_says_what_it_holds(error: ChaserError)
    ensures
        match error@ {
            ErrorModel::NavigationFailed(words) => error matches ChaserError::NavigationFailed(m)
                && m@ == words,
            ErrorModel::CookieExtractionFailed(words) =>
                error matches ChaserError::CookieExtractionFailed(m) && m@ == words,
            ErrorModel::CaptchaFailed(words) => error matches ChaserError::CaptchaFailed(m) && m@
                == words,
            ErrorModel::Timeout(limit) => error == ChaserError::Timeout(limit),
            ErrorModel::Internal(words) => error matches ChaserError::Internal(m) && m@ == words,
        },
{
}

/// A length of time is its seconds and the nanoseconds beyond, and its
/// milliseconds are the whole ones in it, as far as 64 bits hold them.
pub proof fn law_time_is_counted_exactly(time: Elapsed)
    ensures
        time.total_nanos() == time.secs * 1_000_000_000 + time.subsec_nanos,
        time.secs < 0x1_0000_0000_0000 ==> short_millis(time.total_nanos()) == time.secs * 1000
            + time.subsec_nanos / 1_000_000,
{
    if time.secs < 0x1_0000_0000_0000 {
        let whole = time.secs * 1000 + time.subsec_nanos / 1_000_000;
        assert(time.total_nanos() / 1_000_000 == whole);
        assert(0 <= whole < 0x1_0000_0000_0000_0000);
        vstd::arithmetic::div_mod::lemma_small_mod(whole as nat, 0x1_0000_0000_0000_0000);
    }
}

} // verus!
