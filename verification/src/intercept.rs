//! What to do with the requests of a page whose document is replaced.

use crate::text::{joined, occurs_at, occurs_in, replace, replaced, same, starts_with};
use vstd::prelude::*;

verus! {

/// Where the site key goes in the page that is served.
pub const SITE_KEY_MARK: &'static str = "<site-key>";

/// The status with which the page is served.
pub const SERVED_STATUS: u16 = 200;

/// What a request asks for.
#[derive(Debug, Clone, Copy, PartialEq, Eq, Structural)]
pub enum ResourceKind {
    Document,
    Other,
}

/// What to do with a paused request.
#[derive(Debug, Clone, Copy, PartialEq, Eq, Structural)]
pub enum Route {
    /// Answer it with the page in its place, under the status.
    Serve(u16),
    /// Let it go on.
    Continue,
}

/// A request for `requested` is one for the page at `url`.
pub open spec fn asks_for(requested: Seq<char>, url: Seq<char>) -> bool {
    ||| requested == url
    ||| requested == url + "/"@
    ||| url.is_prefix_of(requested)
}

/// What to do with a request.
pub open spec fn route_of(requested: Seq<char>, url: Seq<char>, kind: ResourceKind) -> Route {
    if asks_for(requested, url) && kind == ResourceKind::Document {
        Route::Serve(SERVED_STATUS)
    } else {
        Route::Continue
    }
}

/// The page that is served: the template with the site key in it.
pub open spec fn served_page(template: Seq<char>, site_key: Seq<char>) -> Seq<char> {
    replaced(template, SITE_KEY_MARK@, site_key)
}

/// Whether a request for `requested` is one for the page at `url`.
pub fn is_target(requested: &str, url: &str) -> (is: bool)
    ensures
        is == asks_for(requested@, url@),
{
    same(requested, url) || same(requested, joined(url, "/").as_str()) || starts_with(
        requested,
        url,
    )
}

/// What to do with a request.
pub fn route_request(requested: &str, url: &str, kind: ResourceKind) -> (route: Route)
    ensures
        route == route_of(requested@, url@, kind),
{
    if is_target(requested, url) && kind == ResourceKind::Document {
        Route::Serve(SERVED_STATUS)
    } else {
        Route::Continue
    }
}

/// The page that is served: the template with the site key in it.
pub fn fake_page(template: &str, site_key: &str) -> (page: String)
    ensures
        page@ == served_page(template@, site_key@),
{
    proof {
        reveal_strlit("<site-key>");
    }
    replace(template, SITE_KEY_MARK, site_key)
}

/// A request is for the page exactly when the page's address begins its own:
/// with a slash added, with a query, or bare.
pub proof fn law_page_requests_share_its_address(requested: Seq<char>, url: Seq<char>)
    ensures
        asks_for(requested, url) <==> url.is_prefix_of(requested),
        asks_for(url + requested, url),
{
    assert(url.subrange(0, url.len() as int) =~= url);
    assert((url + "/"@).subrange(0, url.len() as int) =~= url);
    assert((url + requested).subrange(0, url.len() as int) =~= url);
}

/// Only documents are ever replaced: every other resource is let through.
pub proof fn law_only_documents_are_served(
    requested: Seq<char>,
    url: Seq<char>,
    kind: ResourceKind,
)
    ensures
        route_of(requested, url, kind) is Serve ==> kind == ResourceKind::Document
            && url.is_prefix_of(requested),
        kind == ResourceKind::Document && url.is_prefix_of(requested) ==> route_of(
            requested,
            url,
            kind,
        ) == Route::Serve(SERVED_STATUS),
{
    law_page_requests_share_its_address(requested, url);
}

/// A template without a place for the site key is served as it is.
pub proof fn law_template_without_mark_is_kept(template: Seq<char>, site_key: Seq<char>)
    requires
        !occurs_in(template, SITE_KEY_MARK@),
    ensures
        served_page(template, site_key) == template,
    decreases template.len(),
{
    let mark = SITE_KEY_MARK@;
    if mark.len() > 0 && template.len() >= mark.len() {
        assert(!occurs_at(template, mark, 0));
        let rest = template.skip(1);
        assert forall|at: int| !occurs_at(rest, mark, at) by {
            if occurs_at(rest, mark, at) {
                assert(rest.subrange(at, at + mark.len()) =~= template.subrange(
                    at + 1,
                    at + 1 + mark.len(),
                ));
                assert(occurs_at(template, mark, at + 1));
            }
        }
        law_template_without_mark_is_kept(rest, site_key);
        assert(seq![template[0]] + rest =~= template);
    }
}

/// The first place for the site key is taken by it, what stands before is
/// kept, and what stands after is served in the same way.
pub proof fn law_site_key_takes_its_place(
    before: Seq<char>,
    after: Seq<char>,
    site_key: Seq<char>,
)
    requires
        forall|at: int|
            0 <= at < before.len() ==> !#[trigger] occurs_at(
                before + SITE_KEY_MARK@ + after,
                SITE_KEY_MARK@,
                at,
            ),
    ensures
        served_page(before + SITE_KEY_MARK@ + after, site_key) == before + site_key + served_page(
            after,
            site_key,
        ),
    decreases before.len(),
{
    reveal_strlit("<site-key>");
    let mark = SITE_KEY_MARK@;
    let whole = before + mark + after;
    if before.len() == 0 {
        assert(whole.subrange(0, mark.len() as int) =~= mark);
        assert(whole.skip(mark.len() as int) =~= after);
        assert(before + site_key + served_page(after, site_key) =~= site_key + served_page(
            after,
            site_key,
        ));
    } else {
        assert(!occurs_at(whole, mark, 0));
        let rest = before.skip(1);
        assert(whole.skip(1) =~= rest + mark + after);
        assert forall|at: int| 0 <= at < rest.len() implies !#[trigger] occurs_at(
            rest + mark + after,
            mark,
            at,
        ) by {
            assert(!occurs_at(whole, mark, at + 1));
            assert((rest + mark + after).subrange(at, at + mark.len()) =~= whole.subrange(
                at + 1,
                at + 1 + mark.len(),
            ));
        }
        law_site_key_takes_its_place(rest, after, site_key);
        assert(seq![whole[0]] + (rest + site_key + served_page(after, site_key)) =~= before
            + site_key + served_page(after, site_key));
    }
}

} // verus!
