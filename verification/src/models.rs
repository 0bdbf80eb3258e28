//! What goes into an operation and what comes out of it.

use crate::text::same;
use vstd::prelude::*;
use vstd::string::*;

verus! {

/// A proxy to go through, with what it asks for where it asks for it.
#[derive(Debug)]
pub struct ProxyConfig {
    pub host: String,
    pub port: u16,
    pub username: Option<String>,
    pub password: Option<String>,
}

/// A name and a password to answer an authentication request with.
#[derive(Debug)]
pub struct Credentials {
    pub username: String,
    pub password: String,
}

/// How to run a session solve.
#[derive(Debug, Clone, Copy, PartialEq, Eq, Structural)]
pub struct WafSessionOptions {
    /// Whether to start from a context without cookies or storage.
    pub fresh_context: bool,
}

/// When a cookie goes along with requests from other sites.
#[derive(Debug, Clone, Copy, PartialEq, Eq, Structural)]
pub enum SameSite {
    Strict,
    Lax,
    Unrestricted,
}

/// A cookie as the browser reports it. The expiry time is a floating-point
/// number, held here by its bits.
#[derive(Debug)]
pub struct RawCookie {
    pub name: String,
    pub value: String,
    pub domain: String,
    pub path: String,
    pub expires_bits: u64,
    pub http_only: bool,
    pub secure: bool,
    pub same_site: Option<SameSite>,
}

/// A cookie as a session hands it out.
#[derive(Debug)]
pub struct Cookie {
    pub name: String,
    pub value: String,
    pub domain: Option<String>,
    pub path: Option<String>,
    pub expires_bits: Option<u64>,
    pub http_only: Option<bool>,
    pub secure: Option<bool>,
    pub same_site: Option<String>,
}

/// A header to send along with the cookies of a session.
#[derive(Debug)]
pub struct Header {
    pub name: String,
    pub value: String,
}

/// What a session solve gives: enough to go on with plain requests.
#[derive(Debug)]
pub struct WafSession {
    pub cookies: Vec<Cookie>,
    pub headers: Vec<Header>,
}

/// What a script gave when it was evaluated in the page.
#[derive(Debug)]
pub enum Evaluated {
    /// It could not be evaluated.
    Failed,
    /// It gave no value.
    Nothing,
    /// It gave a string.
    Text(String),
    /// It gave something other than a string.
    NotText,
}

/// What a `Cookie` says.
pub struct CookieModel {
    pub name: Seq<char>,
    pub value: Seq<char>,
    pub domain: Option<Seq<char>>,
    pub path: Option<Seq<char>>,
    pub expires_bits: Option<u64>,
    pub http_only: Option<bool>,
    pub secure: Option<bool>,
    pub same_site: Option<Seq<char>>,
}

/// What a `WafSession` says: its cookies, and its headers as pairs.
#[verifier::ext_equal]
pub struct SessionModel {
    pub cookies: Seq<CookieModel>,
    pub headers: Seq<(Seq<char>, Seq<char>)>,
}

/// The characters of a string that may be missing.
pub open spec fn chars_if_any(s: Option<String>) -> Option<Seq<char>> {
    match s {
        Some(text) => Some(text@),
        None => None,
    }
}

impl View for Cookie {
    type V = CookieModel;

    open spec fn view(&self) -> CookieModel {
        CookieModel {
            name: self.name@,
            value: self.value@,
            domain: chars_if_any(self.domain),
            path: chars_if_any(self.path),
            expires_bits: self.expires_bits,
            http_only: self.http_only,
            secure: self.secure,
            same_site: chars_if_any(self.same_site),
        }
    }
}

impl View for WafSession {
    type V = SessionModel;

    open spec fn view(&self) -> SessionModel {
        SessionModel {
            cookies: self.cookies@.map_values(|c: Cookie| c@),
            headers: self.headers@.map_values(|h: Header| (h.name@, h.value@)),
        }
    }
}

/// What a `ProxyConfig` says.
pub struct ProxyModel {
    pub host: Seq<char>,
    pub port: u16,
    pub username: Option<Seq<char>>,
    pub password: Option<Seq<char>>,
}

impl View for ProxyConfig {
    type V = ProxyModel;

    open spec fn view(&self) -> ProxyModel {
        ProxyModel {
            host: self.host@,
            port: self.port,
            username: chars_if_any(self.username),
            password: chars_if_any(self.password),
        }
    }
}

impl View for Credentials {
    type V = (Seq<char>, Seq<char>);

    open spec fn view(&self) -> (Seq<char>, Seq<char>) {
        (self.username@, self.password@)
    }
}

/// What to authenticate with at the proxy: a name and a password where it has
/// both, nothing where it lacks either.
pub open spec fn credentials_of(proxy: Option<ProxyModel>) -> Option<(Seq<char>, Seq<char>)> {
    match proxy {
        Some(p) => match (p.username, p.password) {
            (Some(username), Some(password)) => Some((username, password)),
            _ => None,
        },
        None => None,
    }
}

/// What a proxy that may be missing says.
pub open spec fn proxy_if_any(proxy: Option<ProxyConfig>) -> Option<ProxyModel> {
    match proxy {
        Some(p) => Some(p@),
        None => None,
    }
}

/// What credentials that may be missing say.
pub open spec fn credentials_if_any(credentials: Option<Credentials>) -> Option<
    (Seq<char>, Seq<char>),
> {
    match credentials {
        Some(c) => Some(c@),
        None => None,
    }
}

/// The word for a same-site rule.
pub open spec fn same_site_word(rule: SameSite) -> Seq<char> {
    match rule {
        SameSite::Strict => "Strict"@,
        SameSite::Lax => "Lax"@,
        SameSite::Unrestricted => "None"@,
    }
}

/// What a session says of a cookie that the browser reports.
pub open spec fn cookie_of(raw: RawCookie) -> CookieModel {
    CookieModel {
        name: raw.name@,
        value: raw.value@,
        domain: Some(raw.domain@),
        path: Some(raw.path@),
        expires_bits: Some(raw.expires_bits),
        http_only: Some(raw.http_only),
        secure: Some(raw.secure),
        same_site: match raw.same_site {
            Some(rule) => Some(same_site_word(rule)),
            None => None,
        },
    }
}

/// The string that a script gave, and the empty one where it gave none.
pub open spec fn text_or_empty(evaluated: Evaluated) -> Seq<char> {
    match evaluated {
        Evaluated::Text(text) => text@,
        _ => Seq::empty(),
    }
}

/// What a session says after the browser reported these cookies and its own name.
pub open spec fn session_of(raw: Seq<RawCookie>, user_agent: Seq<char>) -> SessionModel {
    SessionModel {
        cookies: raw.map_values(|c: RawCookie| cookie_of(c)),
        headers: seq![("user-agent"@, user_agent)],
    }
}

/// One of the reported cookies says that the challenge was passed. Nothing is
/// known where the cookies could not be read.
pub open spec fn cleared(cookies: Option<Seq<RawCookie>>) -> bool {
    cookies matches Some(list) && exists|i: int|
        0 <= i < list.len() && (#[trigger] list[i]).name@ == "cf_clearance"@
}

/// The reported cookies, where they could be read.
pub open spec fn cookies_if_any(cookies: Option<Vec<RawCookie>>) -> Option<Seq<RawCookie>> {
    match cookies {
        Some(list) => Some(list@),
        None => None,
    }
}

/// A copy of a string that may be missing.
fn copied(s: &Option<String>) -> (copy: Option<String>)
    ensures
        copy == *s,
{
    match s {
        Some(text) => Some(text.clone()),
        None => None,
    }
}

impl ProxyConfig {
    /// A proxy that asks for no authentication.
    pub fn new(host: &str, port: u16) -> (proxy: ProxyConfig)
        ensures
            proxy@ == (ProxyModel { host: host@, port, username: None, password: None }),
            proxy.host@ == host@,
            proxy.port == port,
            proxy.username is None,
            proxy.password is None,
    {
        ProxyConfig { host: host.to_owned(), port, username: None, password: None }
    }

    /// The same proxy, asking for a name and a password.
    pub fn with_auth(self, username: &str, password: &str) -> (proxy: ProxyConfig)
        ensures
            proxy@ == (ProxyModel {
                username: Some(username@),
                password: Some(password@),
                ..self@
            }),
            proxy.host@ == self.host@,
            proxy.port == self.port,
            proxy.username matches Some(name) && name@ == username@,
            proxy.password matches Some(word) && word@ == password@,
    {
        ProxyConfig {
            host: self.host,
            port: self.port,
            username: Some(username.to_owned()),
            password: Some(password.to_owned()),
        }
    }
}

impl Clone for ProxyConfig {
    fn clone(&self) -> (copy: ProxyConfig)
        ensures
            copy == *self,
    {
        ProxyConfig {
            host: self.host.clone(),
            port: self.port,
            username: copied(&self.username),
            password: copied(&self.password),
        }
    }
}

/// A copy of a proxy that may be missing.
pub fn copied_proxy(proxy: &Option<ProxyConfig>) -> (copy: Option<ProxyConfig>)
    ensures
        copy == *proxy,
{
    match proxy {
        Some(p) => Some(p.clone()),
        None => None,
    }
}

impl Default for WafSessionOptions {
    /// A session starts from a fresh context unless told otherwise.
    fn default() -> (options: WafSessionOptions)
        ensures
            options.fresh_context,
    {
        WafSessionOptions { fresh_context: true }
    }
}

impl WafSessionOptions {
    /// The same options, with a fresh context or without.
    pub fn with_fresh_context(self, fresh_context: bool) -> (options: WafSessionOptions)
        ensures
            options == (WafSessionOptions { fresh_context }),
    {
        WafSessionOptions { fresh_context }
    }
}

/// What to authenticate with at the proxy before anything is loaded through it.
pub fn setup_proxy_auth(proxy: &Option<ProxyConfig>) -> (credentials: Option<Credentials>)
    ensures
        credentials_if_any(credentials) == credentials_of(proxy_if_any(*proxy)),
        credentials is Some <==> (proxy matches Some(p) && p.username is Some && p.password is Some),
        credentials matches Some(c) ==> c.username@ == proxy->0.username->0@ && c.password@
            == proxy->0.password->0@,
{
    match proxy {
        Some(p) => match (&p.username, &p.password) {
            (Some(username), Some(password)) => Some(
                Credentials { username: username.clone(), password: password.clone() },
            ),
            _ => None,
        },
        None => None,
    }
}

/// Whether the browser holds a cookie, for any domain, that says the challenge
/// was passed.
pub fn has_clearance_cookie(cookies: &Option<Vec<RawCookie>>) -> (found: bool)
    ensures
        found == cleared(cookies_if_any(*cookies)),
        cookies is None ==> !found,
        cookies matches Some(list) ==> (found <==> exists|i: int|
            0 <= i < list@.len() && (#[trigger] list@[i]).name@ == "cf_clearance"@),
{
    let list: &Vec<RawCookie> = match cookies {
        Some(list) => list,
        None => {
            return false;
        },
    };
    let mut i: usize = 0;
    while i < list.len()
        invariant
            i <= list.len(),
            cookies_if_any(*cookies) == Some(list@),
            forall|k: int| 0 <= k < i ==> (#[trigger] list@[k]).name@ != "cf_clearance"@,
        decreases list.len() - i,
    {
        if same(list[i].name.as_str(), "cf_clearance") {
            return true;
        }
        i += 1;
    }
    false
}

/// The word for a same-site rule.
fn word_for(rule: SameSite) -> (word: String)
    ensures
        word@ == same_site_word(rule),
{
    match rule {
        SameSite::Strict => "Strict".to_owned(),
        SameSite::Lax => "Lax".to_owned(),
        SameSite::Unrestricted => "None".to_owned(),
    }
}

/// What a session hands out of a cookie that the browser reports.
pub fn cookie_from(raw: &RawCookie) -> (cookie: Cookie)
    ensures
        cookie@ == cookie_of(*raw),
        cookie.name@ == raw.name@,
        cookie.value@ == raw.value@,
        cookie.domain matches Some(domain) && domain@ == raw.domain@,
        cookie.path matches Some(path) && path@ == raw.path@,
        cookie.expires_bits == Some(raw.expires_bits),
        cookie.http_only == Some(raw.http_only),
        cookie.secure == Some(raw.secure),
        match raw.same_site {
            Some(SameSite::Strict) => cookie.same_site matches Some(word) && word@ == "Strict"@,
            Some(SameSite::Lax) => cookie.same_site matches Some(word) && word@ == "Lax"@,
            Some(SameSite::Unrestricted) => cookie.same_site matches Some(word) && word@
                == "None"@,
            None => cookie.same_site is None,
        },
{
    Cookie {
        name: raw.name.clone(),
        value: raw.value.clone(),
        domain: Some(raw.domain.clone()),
        path: Some(raw.path.clone()),
        expires_bits: Some(raw.expires_bits),
        http_only: Some(raw.http_only),
        secure: Some(raw.secure),
        same_site: match raw.same_site {
            Some(rule) => Some(word_for(rule)),
            None => None,
        },
    }
}

/// The string that a script gave, and the empty one where it gave none.
pub fn text_from(evaluated: Evaluated) -> (text: String)
    ensures
        text@ == text_or_empty(evaluated),
        match evaluated {
            Evaluated::Text(given) => text@ == given@,
            _ => text@.len() == 0,
        },
{
    match evaluated {
        Evaluated::Text(text) => text,
        _ => String::new(),
    }
}

/// The session that the reported cookies and the browser's own name make up.
pub fn session_from(raw: &Vec<RawCookie>, user_agent: String) -> (session: WafSession)
    ensures
        session@ == session_of(raw@, user_agent@),
        session.cookies@.len() == raw@.len(),
        forall|i: int|
            0 <= i < raw@.len() ==> {
                let cookie = #[trigger] session.cookies@[i];
                &&& cookie.name@ == raw@[i].name@
                &&& cookie.value@ == raw@[i].value@
                &&& cookie.domain matches Some(domain) && domain@ == raw@[i].domain@
                &&& cookie.path matches Some(path) && path@ == raw@[i].path@
                &&& cookie.expires_bits == Some(raw@[i].expires_bits)
                &&& cookie.http_only == Some(raw@[i].http_only)
                &&& cookie.secure == Some(raw@[i].secure)
                &&& cookie.same_site is Some <==> raw@[i].same_site is Some
            },
        session.headers@.len() == 1,
        session.headers@[0].name@ == "user-agent"@,
        session.headers@[0].value@ == user_agent@,
{
    let mut cookies: Vec<Cookie> = Vec::new();
    let mut i: usize = 0;
    while i < raw.len()
        invariant
            i <= raw.len(),
            cookies.len() == i,
            forall|k: int|
                0 <= k < i ==> {
                    let cookie = #[trigger] cookies@[k];
                    &&& cookie@ == cookie_of(raw@[k])
                    &&& cookie.name@ == raw@[k].name@
                    &&& cookie.value@ == raw@[k].value@
                    &&& cookie.domain matches Some(domain) && domain@ == raw@[k].domain@
                    &&& cookie.path matches Some(path) && path@ == raw@[k].path@
                    &&& cookie.expires_bits == Some(raw@[k].expires_bits)
                    &&& cookie.http_only == Some(raw@[k].http_only)
                    &&& cookie.secure == Some(raw@[k].secure)
                    &&& cookie.same_site is Some <==> raw@[k].same_site is Some
                },
        decreases raw.len() - i,
    {
        cookies.push(cookie_from(&raw[i]));
        i += 1;
    }
    let mut headers: Vec<Header> = Vec::new();
    headers.push(Header { name: "user-agent".to_owned(), value: user_agent });
    let session: WafSession = WafSession { cookies, headers };
    assert(session@.cookies =~= session_of(raw@, user_agent@).cookies);
    assert(session@.headers =~= session_of(raw@, user_agent@).headers);
    session
}

} // verus!
