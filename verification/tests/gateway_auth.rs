//! Cookies, cross-origin settings, nonces and the origins of sockets.
use axum::body::Body;
use axum::extract::Request;
use axum::http::{header, HeaderMap};

use syscity::gateway::auth::ws_origin::{
    check_upgrade, host_allowed, is_loopback_bind, local_origins, origin_allowed,
    origin_matches_host, refuse_upgrade, split_host,
};
use syscity::gateway::auth::{
    csp_nonce, extract_session_cookie_from_headers, generate_csp_nonce, session_cookie, CorsConfig,
    CspConfig, SessionCookieConfig,
};

#[test]
fn test_generate_csp_nonce() {
    let nonce1 = generate_csp_nonce();
    let nonce2 = generate_csp_nonce();
    assert!(!nonce1.is_empty());
    assert_ne!(nonce1, nonce2);
}

#[test]
fn test_session_cookie_config_default() {
    let config = SessionCookieConfig::default();
    assert_eq!(config.name, "syscity_session");
    assert_eq!(config.path, "/");
    assert!(config.secure);
    assert!(config.http_only);
    assert_eq!(config.same_site, "lax");
    assert_eq!(config.max_age_secs, 86400 * 7);
    assert!(config.domain.is_none());
}

#[test]
fn test_extract_session_cookie_single() {
    let req = Request::builder()
        .header(header::COOKIE, "syscity_session=abc123")
        .body(Body::empty())
        .unwrap();
    let token = extract_session_cookie_from_headers(req.headers(), "syscity_session");
    assert_eq!(token, Some("abc123".to_string()));
}

#[test]
fn test_extract_session_cookie_multiple() {
    let req = Request::builder()
        .header(header::COOKIE, "other=value; syscity_session=xyz; foo=bar")
        .body(Body::empty())
        .unwrap();
    let token = extract_session_cookie_from_headers(req.headers(), "syscity_session");
    assert_eq!(token, Some("xyz".to_string()));
}

#[test]
fn test_extract_session_cookie_missing() {
    let req = Request::builder()
        .header(header::COOKIE, "other=value")
        .body(Body::empty())
        .unwrap();
    let token = extract_session_cookie_from_headers(req.headers(), "syscity_session");
    assert_eq!(token, None);
}

#[test]
fn test_extract_session_cookie_no_header() {
    let req = Request::builder().body(Body::empty()).unwrap();
    let token = extract_session_cookie_from_headers(req.headers(), "syscity_session");
    assert_eq!(token, None);
}

#[test]
fn test_extract_session_cookie_no_header_noop() {
    // The session-cookie path is kept only for rate-limit identification;
    // no code creates cookies anymore, so extraction always yields None.
    let req = Request::builder().body(Body::empty()).unwrap();
    assert_eq!(extract_session_cookie_from_headers(req.headers(), "syscity_session"), None);
}

#[test]
fn test_cors_config_default() {
    let config = CorsConfig::default();
    assert!(config.enabled);
    assert_eq!(config.allowed_origins, vec!["*"]);
    assert!(config.allow_credentials);
    assert_eq!(config.max_age_secs, 3600);
}

#[test]
fn test_csp_config_default() {
    let config = CspConfig::default();
    assert!(config.enabled);
    assert!(!config.policy.is_empty());
    assert!(config.use_nonce);
}

#[test]
fn test_csp_nonce_url_safe() {
    let nonce = generate_csp_nonce();
    assert!(!nonce.contains('+'));
    assert!(!nonce.contains('/'));
    assert!(!nonce.contains('='));
}

fn headers(pairs: &[(&str, &str)]) -> HeaderMap {
    let mut map = HeaderMap::new();
    for (k, v) in pairs {
        map.insert(
            axum::http::HeaderName::from_bytes(k.as_bytes()).expect("header name"),
            v.parse().expect("header value"),
        );
    }
    map
}

#[test]
fn the_gateways_own_origins_are_allowed() {
    assert!(origin_allowed("http://localhost:18080", 18080, &[]));
    assert!(origin_allowed("http://127.0.0.1:18080", 18080, &[]));
    assert!(origin_allowed("http://[::1]:18080", 18080, &[]));
}

#[test]
fn the_desktop_shell_is_allowed() {
    assert!(origin_allowed("tauri://localhost", 18080, &[]));
    assert!(origin_allowed("http://tauri.localhost", 18080, &[]));
}

/// The point of the check: a page the user visits must not be able to drive
/// the local runtime.
#[test]
fn a_foreign_page_is_refused() {
    assert!(!origin_allowed("https://evil.example", 18080, &[]));
    assert!(!origin_allowed("http://localhost:5173", 18080, &[]));
    // Same host, different port, is a different origin.
    assert!(!origin_allowed("http://localhost:9999", 18080, &[]));
}

#[test]
fn configured_origins_are_honoured() {
    let extra = vec!["http://localhost:5173".to_string()];
    assert!(origin_allowed("http://localhost:5173", 18080, &extra));
    assert!(!origin_allowed("http://localhost:5174", 18080, &extra));
}

#[test]
fn host_is_checked_only_on_a_loopback_bind() {
    assert!(host_allowed("localhost:18080", true));
    assert!(host_allowed("127.0.0.1:18080", true));
    assert!(host_allowed("[::1]:18080", true));
    assert!(!host_allowed("evil.example:18080", true), "rebinding shape");
    assert!(host_allowed("evil.example:18080", false), "public bind is not our business");
}

#[test]
fn a_browser_request_from_a_foreign_origin_is_refused() {
    let h = headers(&[
        ("host", "127.0.0.1:18080"),
        ("origin", "https://evil.example"),
    ]);
    let err = check_upgrade(&h, "127.0.0.1", 18080, &[]).expect_err("must refuse");
    assert!(err.contains("origin not allowed"), "{err}");
}

#[test]
fn a_rebinding_style_host_is_refused() {
    let h = headers(&[("host", "attacker.example:18080")]);
    let err = check_upgrade(&h, "127.0.0.1", 18080, &[]).expect_err("must refuse");
    assert!(err.contains("Host"), "{err}");
}

/// The CLI and the TUI send no Origin — they carry their own credential, so
/// there is no ambient authority to abuse.
#[test]
fn a_non_browser_client_is_allowed() {
    let h = headers(&[("host", "127.0.0.1:18080")]);
    assert!(check_upgrade(&h, "127.0.0.1", 18080, &[]).is_ok());

    // No Host either: an HTTP/2 client puts it in `:authority`, and a
    // missing Host is not the shape of a rebinding attack.
    assert!(check_upgrade(&headers(&[]), "127.0.0.1", 18080, &[]).is_ok());
}

#[test]
fn the_web_ui_on_its_own_origin_is_allowed() {
    let h = headers(&[
        ("host", "localhost:18080"),
        ("origin", "http://localhost:18080"),
    ]);
    assert!(check_upgrade(&h, "127.0.0.1", 18080, &[]).is_ok());
}

/// The same-origin shortcut: the UI must keep working when the gateway is
/// reached by an address the allowlist cannot enumerate (LAN, tunnel).
#[test]
fn a_same_origin_request_is_allowed_whatever_the_host() {
    let h = headers(&[
        ("host", "192.168.1.5:18080"),
        ("origin", "http://192.168.1.5:18080"),
    ]);
    assert!(check_upgrade(&h, "0.0.0.0", 18080, &[]).is_ok());
    assert!(origin_matches_host("http://192.168.1.5:18080", "192.168.1.5:18080"));
    assert!(!origin_matches_host("http://evil.example", "192.168.1.5:18080"));
}

/// Rebinding agrees with itself (both headers name the attacker's domain),
/// which is why the Host check has to run first.
#[test]
fn rebinding_is_caught_by_the_host_check_not_the_origin_one() {
    let h = headers(&[
        ("host", "evil.example:18080"),
        ("origin", "http://evil.example"),
    ]);
    assert!(
        origin_matches_host("http://evil.example", "evil.example:18080") == false,
        "the port difference alone would not save us"
    );
    let err = check_upgrade(&h, "127.0.0.1", 18080, &[]).expect_err("must refuse");
    assert!(err.contains("Host"), "{err}");
}

#[test]
fn loopback_bind_detection() {
    assert!(is_loopback_bind("127.0.0.1"));
    assert!(is_loopback_bind("localhost"));
    assert!(is_loopback_bind("::1"));
    assert!(!is_loopback_bind("0.0.0.0"));
    assert!(!is_loopback_bind("192.168.1.5"));
}

#[test]
fn cookies_are_found_by_their_name() {
    assert_eq!(session_cookie("a=1; b=2; a=3", "a").as_deref(), Some("1"));
    assert_eq!(session_cookie("a=1;b=x=y", "b").as_deref(), Some("x=y"));
    assert_eq!(session_cookie("ab=1", "a"), None);
    assert_eq!(session_cookie("", "a"), None);
    assert_eq!(session_cookie("a", "a"), None);
}

#[test]
fn a_header_that_is_no_text_is_not_read() {
    let mut map = HeaderMap::new();
    map.insert(header::COOKIE, axum::http::HeaderValue::from_bytes(b"a=\xff").unwrap());
    assert_eq!(extract_session_cookie_from_headers(&map, "a"), None);
    let mut map = HeaderMap::new();
    map.append(header::COOKIE, "b=1".parse().unwrap());
    map.append(header::COOKIE, "a=2".parse().unwrap());
    // The first header of the name counts.
    assert_eq!(extract_session_cookie_from_headers(&map, "b").as_deref(), Some("1"));
    assert_eq!(extract_session_cookie_from_headers(&map, "a"), None);
}

#[test]
fn a_nonce_is_the_text_of_its_bytes() {
    assert_eq!(csp_nonce(&[0; 16]), "AAAAAAAAAAAAAAAAAAAAAA");
    assert_eq!(csp_nonce(&[0xff; 16]), "_____________________w");
    let bytes = [251, 239, 190, 1, 2, 3, 4, 5, 6, 7, 8, 9, 10, 11, 12, 13];
    assert_eq!(csp_nonce(&bytes), "----AQIDBAUGBwgJCgsMDQ");
    assert_eq!(generate_csp_nonce().len(), 22);
}

#[test]
fn own_origins_name_the_port() {
    let own = local_origins(80);
    assert!(own.contains(&"http://localhost:80".to_string()));
    assert!(own.iter().all(|o| origin_allowed(o, 80, &[])));
}

#[test]
fn hosts_are_split_from_their_ports() {
    let parts = |s: &str| split_host(s).map(|(h, p)| (h, p.unwrap_or_default()));
    let pair = |h: &str, p: &str| Some((h.to_string(), p.to_string()));
    assert_eq!(parts("localhost:80"), pair("localhost", "80"));
    assert_eq!(parts("localhost"), pair("localhost", ""));
    assert_eq!(parts("[::1]:80"), pair("::1", "80"));
    assert_eq!(parts("[::1]"), pair("::1", ""));
    // Nothing but a port follows an address in brackets.
    assert_eq!(parts("[::1].evil.example:18080"), None);
    assert!(!host_allowed("[::1].evil.example:18080", true));
}

#[test]
fn upgrades_are_refused_with_a_reason() {
    let text = |s: &str| Some(s.to_string());
    assert!(refuse_upgrade(&None, &None, "127.0.0.1", 1, &[]).is_none());
    assert!(refuse_upgrade(&text("evil.example"), &None, "127.0.0.1", 1, &[]).is_some());
    assert!(refuse_upgrade(&text("evil.example"), &None, "0.0.0.0", 1, &[]).is_none());
    let foreign = text("https://evil.example");
    assert!(refuse_upgrade(&None, &foreign, "0.0.0.0", 1, &[]).is_some());
    let extra = vec!["https://evil.example".to_string()];
    assert!(refuse_upgrade(&None, &foreign, "0.0.0.0", 1, &extra).is_none());
}
