//! The session bootstrap client's logic: the single form-encoded login
//! request against the fixed origin, and the interpretation of its reply.
//!
//! The request description (URL, browser-fingerprint headers, payload,
//! optional pre-seeded bypass cookie) and the reply interpretation are
//! verified; the transport that carries the request lives outside this
//! crate and hands the raw status, body and combined jar cookies back as
//! plain values.

use vstd::prelude::*;
use vstd::string::StringExecFns;
use crate::cookies::cookie_mapping_of;
use crate::cookies::parse_cookie_header;
use crate::cookies::CookieMap;
use crate::errors::LoginError;
use crate::errors::VaultError;
use crate::vault::save_credentials;

verus! {

/// The fixed remote origin logins are performed against.
pub open spec fn origin_url() -> Seq<char> {
    "https://twoblade.com"@
}

/// The fixed login endpoint under the origin.
pub open spec fn login_endpoint_url() -> Seq<char> {
    "https://twoblade.com/login"@
}

/// The form-encoded body of a login request: exactly
/// `username=<u>&password=<p>`, with no further encoding.
pub open spec fn login_body_of(u: Seq<char>, p: Seq<char>) -> Seq<char> {
    "username="@ + u + "&password="@ + p
}

/// The cookie string that pre-seeds the jar with a bypass token.
pub open spec fn seed_cookie_of(t: Seq<char>) -> Seq<char> {
    "cf_clearance="@ + t
}

/// The name/value views of a header list.
pub open spec fn header_views(s: Seq<(String, String)>) -> Seq<(Seq<char>, Seq<char>)> {
    s.map_values(|p: (String, String)| (p.0@, p.1@))
}

/// The literal browser-fingerprint header set, one versioned block: the
/// content negotiation, cache directives, client hints, fetch metadata,
/// framework action marker and referer/origin of the represented browser.
/// The values belong together; swapping the represented browser means
/// replacing the whole set.
pub open spec fn fingerprint_headers() -> Seq<(Seq<char>, Seq<char>)> {
    seq![
        ("accept"@, "application/json"@),
        ("accept-language"@, "en-US,en;q=0.9,ro;q=0.8"@),
        ("cache-control"@, "no-cache"@),
        ("content-type"@, "application/x-www-form-urlencoded"@),
        ("pragma"@, "no-cache"@),
        ("priority"@, "u=1, i"@),
        ("sec-ch-ua"@, "\"Chromium\";v=\"136\", \"Google Chrome\";v=\"136\", \"Not.A/Brand\";v=\"99\""@),
        ("sec-ch-ua-arch"@, "\"x86\""@),
        ("sec-ch-ua-bitness"@, "\"64\""@),
        ("sec-ch-ua-full-version"@, "\"136.0.7103.114\""@),
        (
            "sec-ch-ua-full-version-list"@,
            "\"Chromium\";v=\"136.0.7103.114\", \"Google Chrome\";v=\"136.0.7103.114\", \"Not.A/Brand\";v=\"99.0.0.0\""@,
        ),
        ("sec-ch-ua-mobile"@, "?0"@),
        ("sec-ch-ua-model"@, "\"\""@),
        ("sec-ch-ua-platform"@, "\"Windows\""@),
        ("sec-ch-ua-platform-version"@, "\"10.0.0\""@),
        ("sec-fetch-dest"@, "empty"@),
        ("sec-fetch-mode"@, "cors"@),
        ("sec-fetch-site"@, "same-origin"@),
        ("x-sveltekit-action"@, "true"@),
        ("referer"@, "https://twoblade.com/login"@),
        ("origin"@, "https://twoblade.com"@),
    ]
}

/// The executable fingerprint header set, equal pair for pair to
/// `fingerprint_headers`.
pub fn fingerprint_header_list() -> (r: Vec<(String, String)>)
    ensures
        header_views(r@) == fingerprint_headers(),
{
    let mut v: Vec<(String, String)> = Vec::new();
    v.push((String::from_str("accept"), String::from_str("application/json")));
    v.push((String::from_str("accept-language"), String::from_str("en-US,en;q=0.9,ro;q=0.8")));
    v.push((String::from_str("cache-control"), String::from_str("no-cache")));
    v.push((String::from_str("content-type"), String::from_str("application/x-www-form-urlencoded")));
    v.push((String::from_str("pragma"), String::from_str("no-cache")));
    v.push((String::from_str("priority"), String::from_str("u=1, i")));
    v.push((
        String::from_str("sec-ch-ua"),
        String::from_str("\"Chromium\";v=\"136\", \"Google Chrome\";v=\"136\", \"Not.A/Brand\";v=\"99\""),
    ));
    v.push((String::from_str("sec-ch-ua-arch"), String::from_str("\"x86\"")));
    v.push((String::from_str("sec-ch-ua-bitness"), String::from_str("\"64\"")));
    v.push((String::from_str("sec-ch-ua-full-version"), String::from_str("\"136.0.7103.114\"")));
    v.push((
        String::from_str("sec-ch-ua-full-version-list"),
        String::from_str(
            "\"Chromium\";v=\"136.0.7103.114\", \"Google Chrome\";v=\"136.0.7103.114\", \"Not.A/Brand\";v=\"99.0.0.0\"",
        ),
    ));
    v.push((String::from_str("sec-ch-ua-mobile"), String::from_str("?0")));
    v.push((String::from_str("sec-ch-ua-model"), String::from_str("\"\"")));
    v.push((String::from_str("sec-ch-ua-platform"), String::from_str("\"Windows\"")));
    v.push((String::from_str("sec-ch-ua-platform-version"), String::from_str("\"10.0.0\"")));
    v.push((String::from_str("sec-fetch-dest"), String::from_str("empty")));
    v.push((String::from_str("sec-fetch-mode"), String::from_str("cors")));
    v.push((String::from_str("sec-fetch-site"), String::from_str("same-origin")));
    v.push((String::from_str("x-sveltekit-action"), String::from_str("true")));
    v.push((String::from_str("referer"), String::from_str("https://twoblade.com/login")));
    v.push((String::from_str("origin"), String::from_str("https://twoblade.com")));
    proof {
        assert(header_views(v@) =~= fingerprint_headers());
    }
    v
}

/// Everything the transport needs to perform one login request.
#[derive(Debug)]
pub struct LoginRequest {
    /// The origin the fresh cookie jar is scoped to.
    pub origin: String,
    /// The endpoint the `POST` goes to.
    pub url: String,
    /// The fingerprint headers, to be sent byte for byte.
    pub headers: Vec<(String, String)>,
    /// The form-encoded body.
    pub body: String,
    /// A cookie string to pre-seed the fresh jar with, when a bypass token
    /// was supplied.
    pub seed_cookie: Option<String>,
}

/// Describe the single login request for `username` and `password`,
/// pre-seeding the jar with the bypass token when one is given.
pub fn prepare_login_request(username: &str, password: &str, bypass_token: &Option<String>) -> (r:
    LoginRequest)
    ensures
        r.origin@ == origin_url(),
        r.url@ == login_endpoint_url(),
        header_views(r.headers@) == fingerprint_headers(),
        r.body@ == login_body_of(username@, password@),
        match *bypass_token {
            Some(t) => r.seed_cookie matches Some(c) && c@ == seed_cookie_of(t@),
            None => r.seed_cookie is None,
        },
{
    let origin = String::from_str("https://twoblade.com");
    let url = String::from_str("https://twoblade.com/login");
    let headers = fingerprint_header_list();
    let body = String::from_str("username=").concat(username).concat("&password=").concat(password);
    let seed_cookie = match bypass_token {
        Some(t) => Some(String::from_str("cf_clearance=").concat(t.as_str())),
        None => None,
    };
    LoginRequest { origin, url, headers, body, seed_cookie }
}

/// The statuses the remote service may answer with that count as success.
pub open spec fn is_success_status(status: u16) -> bool {
    200 <= status < 300
}

/// What the transport hands back from one login request.
#[derive(Debug)]
pub struct HttpReply {
    /// The raw response status.
    pub status: u16,
    /// The raw response body text.
    pub body: String,
    /// The jar's combined cookie header for the origin after the request;
    /// empty when the jar holds nothing.
    pub cookie_header: String,
}

/// Interpret the reply of the login request: any non-success status is a
/// fatal rejection carrying the raw status and body; on success the jar's
/// combined cookie header is parsed into the session's cookie mapping,
/// and an empty or unparseable cookie set is an empty mapping, not an
/// error.
pub fn complete_login(reply: HttpReply) -> (r: Result<CookieMap, LoginError>)
    ensures
        is_success_status(reply.status) ==> (r matches Ok(m) && m.wf() && m.as_mapping()
            == cookie_mapping_of(reply.cookie_header@)),
        !is_success_status(reply.status) ==> r == Result::<CookieMap, LoginError>::Err(
            LoginError::Rejected { status: reply.status, body: reply.body },
        ),
{
    if 200 <= reply.status && reply.status < 300 {
        Ok(parse_cookie_header(reply.cookie_header.as_str()))
    } else {
        Err(LoginError::Rejected { status: reply.status, body: reply.body })
    }
}

/// What "login and remember" returns once the login's outcome and — when
/// remembering was asked for — the vault write's outcome are known: a
/// vault-write failure after a successful login is an error, even though
/// the session itself was obtained.
pub open spec fn remember_outcome_spec(
    session: CookieMap,
    save_result: Result<(), VaultError>,
    remember: bool,
) -> Result<CookieMap, VaultError> {
    if remember {
        match save_result {
            Result::Err(e) => Result::Err(e),
            Result::Ok(_) => Result::Ok(session),
        }
    } else {
        Result::Ok(session)
    }
}

/// The remember decision over a vault write's outcome.
pub fn remember_outcome(
    session: CookieMap,
    save_result: Result<(), VaultError>,
    remember: bool,
) -> (r: Result<CookieMap, VaultError>)
    ensures
        r == remember_outcome_spec(session, save_result, remember),
{
    if remember {
        match save_result {
            Err(e) => Err(e),
            Ok(_) => Ok(session),
        }
    } else {
        Ok(session)
    }
}

/// Law: a failing vault write after a successful login surfaces as an
/// error — "got a session" and "was remembered" are independent outcomes
/// that can diverge.
pub proof fn lemma_failed_remember_is_error(session: CookieMap, e: VaultError)
    ensures
        remember_outcome_spec(session, Result::Err(e), true) == Result::<
            CookieMap,
            VaultError,
        >::Err(e),
{
}

/// Law: with remembering off, the vault plays no part — the session
/// passes through untouched whatever a vault write would have answered.
pub proof fn lemma_session_independent_of_vault(
    session: CookieMap,
    save_result: Result<(), VaultError>,
)
    ensures
        remember_outcome_spec(session, save_result, false) == Result::<
            CookieMap,
            VaultError,
        >::Ok(session),
{
}

/// The post-login half of "login and remember": persist the credentials
/// through the vault when asked to, and fail — the session
/// notwithstanding — when that write fails.
pub fn remember_after_login(
    session: CookieMap,
    username: &str,
    password: &str,
    cf_clearance: &Option<String>,
    remember: bool,
) -> (r: Result<CookieMap, VaultError>)
    ensures
        !remember ==> r == Result::<CookieMap, VaultError>::Ok(session),
        r matches Ok(m) ==> m == session,
        r matches Err(e) ==> remember && e.is_save_error(),
{
    if remember {
        let save_result = save_credentials(username, password, cf_clearance);
        remember_outcome(session, save_result, true)
    } else {
        Ok(session)
    }
}

} // verus!
