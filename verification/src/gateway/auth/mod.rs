//! Credentials and browser-facing security settings of the gateway.
//!
//! Session cookies are read but never issued: the parser serves an external
//! party that hands a session over.
use base64::Engine;
use rand::Rng;
use vstd::prelude::*;

use crate::text::{opt_text, pieces, same, split, split_first, split_once, texts, trim, trimmed};

pub mod ws_origin;

verus! {

// ---------------------------------------------------------------------------
// Request headers
// ---------------------------------------------------------------------------

/// A multimap of HTTP headers.
#[verifier::external_type_specification]
#[verifier::external_body]
#[verifier::reject_recursive_types(T)]
pub struct ExHeaderMap<T>(axum::http::HeaderMap<T>);

/// The bytes of one HTTP header.
#[verifier::external_type_specification]
#[verifier::external_body]
pub struct ExHeaderValue(axum::http::HeaderValue);

/// The headers of a request as texts: under each spelling of a header name the
/// first value received, where that value is visible ASCII.
pub uninterp spec fn header_texts(headers: axum::http::HeaderMap) -> Map<Seq<char>, Seq<char>>;

/// What the headers hold as text under `name`.
pub open spec fn header(headers: axum::http::HeaderMap, name: Seq<char>) -> Option<Seq<char>> {
    if header_texts(headers).dom().contains(name) {
        Some(header_texts(headers)[name])
    } else {
        None
    }
}

/// `HeaderMap::get` and `HeaderValue::to_str`: the first value under a header
/// name, if there is one and it is visible ASCII. The answer is a function of
/// the headers and the name.
#[verifier::external_body]
fn header_text(headers: &axum::http::HeaderMap, name: &str) -> (r: Option<String>)
    ensures
        match r {
            Some(v) => header_texts(*headers).dom().contains(name@) && v@ == header_texts(
                *headers,
            )[name@],
            None => !header_texts(*headers).dom().contains(name@),
        },
{
    headers.get(name).and_then(|v| v.to_str().ok()).map(|v| v.to_string())
}

// ---------------------------------------------------------------------------
// Session cookie
// ---------------------------------------------------------------------------

/// Session cookie configuration.
#[derive(Debug, Clone)]
pub struct SessionCookieConfig {
    /// Cookie name
    pub name: String,
    /// Cookie domain
    pub domain: Option<String>,
    /// Cookie path
    pub path: String,
    /// Secure flag (HTTPS only)
    pub secure: bool,
    /// HttpOnly flag
    pub http_only: bool,
    /// SameSite policy
    pub same_site: String,
    /// Max age in seconds
    pub max_age_secs: i64,
}

impl Default for SessionCookieConfig {
    fn default() -> (r: Self)
        ensures
            r.name@ == "syscity_session"@,
            r.domain is None,
            r.path@ == "/"@,
            r.secure,
            r.http_only,
            r.same_site@ == "lax"@,
            r.max_age_secs == 86400 * 7,
    {
        SessionCookieConfig {
            name: "syscity_session".to_string(),
            domain: None,
            path: "/".to_string(),
            secure: true,
            http_only: true,
            same_site: "lax".to_string(),
            max_age_secs: 86400 * 7,
        }
    }
}

/// The value of the first cookie called `name` in a list of `name=value`
/// pairs; a pair without `=` ends the search.
pub open spec fn cookie_in(pairs: Seq<Seq<char>>, name: Seq<char>) -> Option<Seq<char>>
    decreases pairs.len(),
{
    if pairs.len() == 0 {
        None
    } else {
        match split_first(trimmed(pairs[0]), "="@) {
            None => None,
            Some((n, v)) => if n == name {
                Some(v)
            } else {
                cookie_in(pairs.skip(1), name)
            },
        }
    }
}

/// The value of the cookie called `name` in the text of a `Cookie` header.
pub fn session_cookie(cookies: &str, cookie_name: &str) -> (r: Option<String>)
    ensures
        opt_text(r) == cookie_in(pieces(cookies@, ';'), cookie_name@),
{
    let pairs = split(cookies, ';');
    let mut i: usize = 0;
    assert(texts(pairs@).skip(0) =~= pieces(cookies@, ';'));
    while i < pairs.len()
        invariant
            i <= pairs@.len(),
            texts(pairs@) == pieces(cookies@, ';'),
            cookie_in(pieces(cookies@, ';'), cookie_name@) == cookie_in(
                texts(pairs@).skip(i as int),
                cookie_name@,
            ),
        decreases pairs.len() - i,
    {
        let pair = trim(&pairs[i]);
        assert(texts(pairs@).skip(i as int)[0] == pairs@[i as int]@);
        match split_once(&pair, "=") {
            None => {
                return None;
            },
            Some((name, value)) => {
                if same(&name, cookie_name) {
                    return Some(value);
                }
                assert(texts(pairs@).skip(i as int).skip(1) =~= texts(pairs@).skip(i + 1));
            },
        }
        i += 1;
    }
    None
}

/// The session token in the `Cookie` header, if the request has one.
pub fn extract_session_cookie_from_headers(
    headers: &axum::http::HeaderMap,
    cookie_name: &str,
) -> (r: Option<String>)
    ensures
        opt_text(r) == match header(*headers, "cookie"@) {
            Some(cookies) => cookie_in(pieces(cookies, ';'), cookie_name@),
            None => None,
        },
{
    match header_text(headers, "cookie") {
        Some(cookies) => session_cookie(&cookies, cookie_name),
        None => None,
    }
}

// ---------------------------------------------------------------------------
// CORS and CSP
// ---------------------------------------------------------------------------

/// CORS configuration
#[derive(Debug, Clone)]
pub struct CorsConfig {
    /// Enable CORS
    pub enabled: bool,
    /// Allowed origins (use ["*"] for any)
    pub allowed_origins: Vec<String>,
    /// Allowed methods
    pub allowed_methods: Vec<String>,
    /// Allowed headers
    pub allowed_headers: Vec<String>,
    /// Allow credentials (cookies)
    pub allow_credentials: bool,
    /// Max age for preflight cache
    pub max_age_secs: u32,
}

impl Default for CorsConfig {
    fn default() -> (r: Self)
        ensures
            r.enabled,
            texts(r.allowed_origins@) == seq!["*"@],
            texts(r.allowed_methods@) == seq!["GET"@, "POST"@, "PUT"@, "DELETE"@, "OPTIONS"@],
            texts(r.allowed_headers@) == seq![
                "Content-Type"@,
                "Authorization"@,
                "X-Requested-With"@,
            ],
            r.allow_credentials,
            r.max_age_secs == 3600,
    {
        CorsConfig {
            enabled: true,
            allowed_origins: vec!["*".to_string()],
            allowed_methods: vec![
                "GET".to_string(),
                "POST".to_string(),
                "PUT".to_string(),
                "DELETE".to_string(),
                "OPTIONS".to_string(),
            ],
            allowed_headers: vec![
                "Content-Type".to_string(),
                "Authorization".to_string(),
                "X-Requested-With".to_string(),
            ],
            allow_credentials: true,
            max_age_secs: 3600,
        }
    }
}

/// CSP (Content Security Policy) configuration
#[derive(Debug, Clone)]
pub struct CspConfig {
    /// Enable CSP
    pub enabled: bool,
    /// Default CSP policy string
    pub policy: String,
    /// Nonce-enabled script-src (for inline scripts)
    pub use_nonce: bool,
}

impl Default for CspConfig {
    fn default() -> (r: Self)
        ensures
            r.enabled,
            r.policy@
                == "default-src 'self'; script-src 'self'; style-src 'self' 'unsafe-inline'; img-src 'self' data:; font-src 'self'; connect-src 'self' ws: wss:; frame-ancestors 'none'; base-uri 'self'; form-action 'self';"@,
            r.use_nonce,
    {
        CspConfig {
            enabled: true,
            policy: "default-src 'self'; script-src 'self'; style-src 'self' 'unsafe-inline'; img-src 'self' data:; font-src 'self'; connect-src 'self' ws: wss:; frame-ancestors 'none'; base-uri 'self'; form-action 'self';".to_string(),
            use_nonce: true,
        }
    }
}

/// The URL-safe base64 text of some bytes, without padding.
pub uninterp spec fn base64_url(bytes: Seq<u8>) -> Seq<char>;

/// Whether a character belongs to the URL-safe base64 alphabet.
pub open spec fn is_base64_url_char(c: char) -> bool {
    'A' <= c <= 'Z' || 'a' <= c <= 'z' || '0' <= c <= '9' || c == '-' || c == '_'
}

/// `Engine::encode` of `base64` with the `URL_SAFE_NO_PAD` engine: a function of
/// the bytes, with four characters for every three bytes, two or three for what
/// is left over, and no character outside the URL-safe alphabet.
#[verifier::external_body]
fn encode_base64_url(bytes: &[u8]) -> (r: String)
    requires
        bytes@.len() <= 0x1000_0000,
    ensures
        r@ == base64_url(bytes@),
        r@.len() == (4 * bytes@.len() + 2) / 3,
        forall|i: int| 0 <= i < r@.len() ==> is_base64_url_char(#[trigger] r@[i]),
{
    base64::engine::general_purpose::URL_SAFE_NO_PAD.encode(bytes)
}

/// `Rng::gen` of `rand` on the thread's generator: any byte. Nothing is claimed of
/// it.
#[verifier::external_body]
fn random_byte() -> (r: u8) {
    rand::thread_rng().gen::<u8>()
}

/// The nonce made of the given random bytes.
pub fn csp_nonce(bytes: &[u8; 16]) -> (r: String)
    ensures
        r@ == base64_url(bytes@),
        r@.len() == 22,
        forall|i: int| 0 <= i < r@.len() ==> is_base64_url_char(#[trigger] r@[i]),
{
    encode_base64_url(bytes.as_slice())
}

/// Generate a random CSP nonce: the text of sixteen random bytes. That two
/// nonces differ is a matter of chance and is not stated.
pub fn generate_csp_nonce() -> (r: String)
    ensures
        exists|bytes: Seq<u8>| bytes.len() == 16 && r@ == #[trigger] base64_url(bytes),
        r@.len() == 22,
        forall|i: int| 0 <= i < r@.len() ==> is_base64_url_char(#[trigger] r@[i]),
{
    let mut bytes: [u8; 16] = [0; 16];
    let mut i: usize = 0;
    while i < 16
        invariant
            i <= 16,
        decreases 16 - i,
    {
        bytes[i] = random_byte();
        i += 1;
    }
    csp_nonce(&bytes)
}

} // verus!
