//! Origin and Host validation for WebSocket upgrades.
//!
//! A loopback bind is not a boundary for a browser: any page the user visits
//! can open a WebSocket to a loopback port, so the server checks `Origin`
//! itself, and checks `Host` against DNS rebinding. Non-browser clients send
//! neither header, so an absent one is allowed.
use vstd::prelude::*;
use vstd::string::*;

use super::{header, header_text};
use crate::text::{
    ascii_lower, decimal, decimal_of, eq_ignore_ascii_case, is_digit, is_one_of, lemma_decimal_digits,
    lemma_decimal_injective, opt_text, same, split_first, split_once, strip_prefix, texts, trim, trim_end_char, trimmed, trimmed_end_of, without_prefix,
};

verus! {

/// Origins of the desktop shell, accepted whatever the configuration says.
pub open spec fn is_shell_origin(origin: Seq<char>) -> bool {
    origin == "tauri://localhost"@ || origin == "http://tauri.localhost"@ || origin
        == "https://tauri.localhost"@
}

/// The origin `scheme://host:port`.
pub open spec fn origin_of(scheme: Seq<char>, host: Seq<char>, port: u16) -> Seq<char> {
    scheme + "://"@ + host + ":"@ + decimal(port as nat)
}

/// Origins the gateway serves itself from, for the given port.
pub open spec fn own_origins(port: u16) -> Seq<Seq<char>> {
    seq![
        origin_of("http"@, "localhost"@, port),
        origin_of("http"@, "127.0.0.1"@, port),
        origin_of("http"@, "[::1]"@, port),
        origin_of("https"@, "localhost"@, port),
        origin_of("https"@, "127.0.0.1"@, port),
        origin_of("https"@, "[::1]"@, port),
    ]
}

fn make_origin(scheme: &str, host: &str, port: u16) -> (r: String)
    ensures
        r@ == origin_of(scheme@, host@, port),
{
    let mut s = scheme.to_string();
    s.append("://");
    s.append(host);
    s.append(":");
    s.append(&decimal_of(port as u64));
    s
}

/// Origins the gateway serves itself from, for the given port.
pub fn local_origins(port: u16) -> (r: Vec<String>)
    ensures
        texts(r@) == own_origins(port),
{
    vec![
        make_origin("http", "localhost", port),
        make_origin("http", "127.0.0.1", port),
        make_origin("http", "[::1]", port),
        make_origin("https", "localhost", port),
        make_origin("https", "127.0.0.1", port),
        make_origin("https", "[::1]", port),
    ]
}

/// Whether a browser Origin may open a WebSocket to the gateway on `port`.
pub open spec fn allowed_origin(origin: Seq<char>, port: u16, extra: Seq<Seq<char>>) -> bool {
    extra.contains(origin) || is_shell_origin(origin) || own_origins(port).contains(origin)
}

/// Whether a browser Origin may open a WebSocket to this gateway.
pub fn origin_allowed(origin: &str, port: u16, extra: &[String]) -> (r: bool)
    ensures
        r == allowed_origin(origin@, port, texts(extra@)),
{
    if is_one_of(extra, origin) {
        return true;
    }
    if same(origin, "tauri://localhost") || same(origin, "http://tauri.localhost") || same(
        origin,
        "https://tauri.localhost",
    ) {
        return true;
    }
    is_one_of(local_origins(port).as_slice(), origin)
}

/// Whether `origin` names the host that the request was sent to.
pub open spec fn same_origin(origin: Seq<char>, host: Seq<char>) -> bool {
    match split_first(origin, "://"@) {
        Some((_, authority)) => ascii_lower(trimmed_end_of(authority, '/')) == ascii_lower(
            trimmed(host),
        ),
        None => false,
    }
}

/// Whether `origin` is the same origin as the `Host` the request was sent to.
///
/// A browser derives both headers from the URL it is loading, so a page cannot
/// make them disagree. Under DNS rebinding both name the same foreign domain,
/// which is what [`host_allowed`] is there to catch.
pub fn origin_matches_host(origin: &str, host_header: &str) -> (r: bool)
    ensures
        r == same_origin(origin@, host_header@),
{
    match split_once(origin, "://") {
        Some((_, authority)) => eq_ignore_ascii_case(
            &trim_end_char(&authority, '/'),
            &trim(host_header),
        ),
        None => false,
    }
}

/// The name and the port of a `Host` header: `[name]:port` with a bracketed
/// IPv6 literal, else `name:port`; nothing for an empty header, an open bracket,
/// or a bracket that anything but a port follows.
pub open spec fn host_parts(header: Seq<char>) -> Option<(Seq<char>, Option<Seq<char>>)> {
    let host = trimmed(header);
    if host.len() == 0 {
        None
    } else {
        match without_prefix(host, "["@) {
            Some(rest) => match split_first(rest, "]"@) {
                Some((name, tail)) => if tail.len() == 0 {
                    Some((name, None))
                } else {
                    match without_prefix(tail, ":"@) {
                        Some(port) => Some((name, Some(port))),
                        None => None,
                    }
                },
                None => None,
            },
            None => match split_first(host, ":"@) {
                Some((name, port)) => Some((name, Some(port))),
                None => Some((host, None)),
            },
        }
    }
}

/// Split `host:port`, handling a bracketed IPv6 literal.
pub fn split_host(host_header: &str) -> (r: Option<(String, Option<String>)>)
    ensures
        match r {
            Some((name, port)) => host_parts(host_header@) == Some((name@, opt_text(port))),
            None => host_parts(host_header@) is None,
        },
{
    let host = trim(host_header);
    if host.as_str().is_empty() {
        return None;
    }
    match strip_prefix(&host, "[") {
        Some(rest) => match split_once(&rest, "]") {
            Some((name, tail)) => {
                if tail.as_str().is_empty() {
                    Some((name, None))
                } else {
                    match strip_prefix(&tail, ":") {
                        Some(port) => Some((name, Some(port))),
                        None => None,
                    }
                }
            },
            None => None,
        },
        None => match split_once(&host, ":") {
            Some((name, port)) => Some((name, Some(port))),
            None => Some((host, None)),
        },
    }
}

/// The loopback names of a bind address or a `Host` header.
pub open spec fn is_loopback_name(name: Seq<char>) -> bool {
    name == "localhost"@ || name == "127.0.0.1"@ || name == "::1"@ || name == "[::1]"@
}

/// Whether a `Host` header is acceptable.
pub open spec fn allowed_host(host: Seq<char>, bound_loopback: bool) -> bool {
    bound_loopback ==> match host_parts(host) {
        Some((name, _)) => is_loopback_name(name),
        None => false,
    }
}

/// Whether the `Host` header is acceptable for the configured bind address:
/// on a loopback bind it must name loopback.
pub fn host_allowed(host_header: &str, bound_loopback: bool) -> (r: bool)
    ensures
        r == allowed_host(host_header@, bound_loopback),
{
    if !bound_loopback {
        return true;
    }
    match split_host(host_header) {
        Some((name, _)) => is_loopback_bind(&name),
        None => false,
    }
}

/// Is the configured bind address loopback-only?
pub fn is_loopback_bind(host: &str) -> (r: bool)
    ensures
        r == is_loopback_name(host@),
{
    same(host, "127.0.0.1") || same(host, "localhost") || same(host, "::1") || same(host, "[::1]")
}

/// The reason for which an upgrade is refused, if it is.
pub open spec fn upgrade_refusal(
    host: Option<Seq<char>>,
    origin: Option<Seq<char>>,
    bound_host: Seq<char>,
    port: u16,
    extra: Seq<Seq<char>>,
) -> Option<Seq<char>> {
    if host is Some && !allowed_host(host->0, is_loopback_name(bound_host)) {
        Some("unexpected Host: "@ + host->0)
    } else {
        let sent_to = match host {
            Some(h) => h,
            None => Seq::empty(),
        };
        if origin is Some && !same_origin(origin->0, sent_to) && !allowed_origin(
            origin->0,
            port,
            extra,
        ) {
            Some("origin not allowed: "@ + origin->0)
        } else {
            None
        }
    }
}

/// The reason for which an upgrade with these `Host` and `Origin` headers is
/// refused, if it is.
pub fn refuse_upgrade(
    host: &Option<String>,
    origin: &Option<String>,
    bound_host: &str,
    port: u16,
    extra_origins: &[String],
) -> (r: Option<String>)
    ensures
        opt_text(r) == upgrade_refusal(
            opt_text(*host),
            opt_text(*origin),
            bound_host@,
            port,
            texts(extra_origins@),
        ),
{
    let loopback = is_loopback_bind(bound_host);
    if let Some(h) = host {
        if !host_allowed(h, loopback) {
            let mut reason = "unexpected Host: ".to_string();
            reason.append(h);
            return Some(reason);
        }
    }
    if let Some(o) = origin {
        let sent_to = match host {
            Some(h) => h.clone(),
            None => String::new(),
        };
        if !origin_matches_host(o, &sent_to) && !origin_allowed(o, port, extra_origins) {
            let mut reason = "origin not allowed: ".to_string();
            reason.append(o);
            return Some(reason);
        }
    }
    None
}

/// Validate an upgrade request's `Origin` (when present) and `Host`.
///
/// Returns a short reason when the request must be refused.
pub fn check_upgrade(
    headers: &axum::http::HeaderMap,
    bound_host: &str,
    port: u16,
    extra_origins: &[String],
) -> (r: Result<(), String>)
    ensures
        match upgrade_refusal(
            header(*headers, "host"@),
            header(*headers, "origin"@),
            bound_host@,
            port,
            texts(extra_origins@),
        ) {
            Some(reason) => r matches Err(e) && e@ == reason,
            None => r is Ok,
        },
{
    let host = header_text(headers, "host");
    let origin = header_text(headers, "origin");
    match refuse_upgrade(&host, &origin, bound_host, port, extra_origins) {
        Some(reason) => Err(reason),
        None => Ok(()),
    }
}

// ---------------------------------------------------------------------------
// Laws
// ---------------------------------------------------------------------------

/// A page served from another port is a foreign page: no origin of a gateway on
/// port `q` is an own origin of a gateway on another port `p`.
pub proof fn law_other_port_is_another_origin(p: u16, q: u16, origin: Seq<char>)
    requires
        p != q,
        own_origins(q).contains(origin),
    ensures
        !own_origins(p).contains(origin),
{
    if own_origins(p).contains(origin) {
        let i = choose|i: int| 0 <= i < own_origins(q).len() && own_origins(q)[i] == origin;
        let j = choose|j: int| 0 <= j < own_origins(p).len() && own_origins(p)[j] == origin;
        lemma_own_origin_ends_in_port(q, i);
        lemma_own_origin_ends_in_port(p, j);
        lemma_same_tail(
            origin.take(origin.len() - decimal(q as nat).len()),
            origin.take(origin.len() - decimal(p as nat).len()),
            q,
            p,
        );
    }
}

proof fn lemma_own_origin_ends_in_port(port: u16, i: int)
    requires
        0 <= i < own_origins(port).len(),
    ensures
        ({
            let o = own_origins(port)[i];
            let d = decimal(port as nat);
            let head = o.take(o.len() - d.len());
            &&& d.len() < o.len()
            &&& o == head + d
            &&& head.last() == ':'
        }),
{
    reveal_strlit(":");
    let o = own_origins(port)[i];
    let d = decimal(port as nat);
    let head = o.take(o.len() - d.len());
    assert(o =~= head + d);
    assert(head.last() == ":"@[0]);
}

proof fn lemma_same_tail(a: Seq<char>, b: Seq<char>, p: u16, q: u16)
    requires
        a.len() > 0,
        b.len() > 0,
        a.last() == ':',
        b.last() == ':',
        a + decimal(p as nat) == b + decimal(q as nat),
    ensures
        p == q,
{
    let s = a + decimal(p as nat);
    let t = b + decimal(q as nat);
    lemma_decimal_digits(p as nat);
    lemma_decimal_digits(q as nat);
    assert(s.len() == a.len() + decimal(p as nat).len());
    assert(t.len() == b.len() + decimal(q as nat).len());
    if a.len() < b.len() {
        assert(is_digit(decimal(p as nat)[b.len() - 1 - a.len()]));
        assert(s[b.len() - 1] == decimal(p as nat)[b.len() - 1 - a.len()]);
        assert(t[b.len() - 1] == ':');
    } else if b.len() < a.len() {
        assert(is_digit(decimal(q as nat)[a.len() - 1 - b.len()]));
        assert(t[a.len() - 1] == decimal(q as nat)[a.len() - 1 - b.len()]);
        assert(s[a.len() - 1] == ':');
    } else {
        assert(decimal(p as nat) =~= s.skip(a.len() as int));
        assert(decimal(q as nat) =~= t.skip(a.len() as int));
        lemma_decimal_injective(p as nat, q as nat);
    }
}

/// On a loopback bind a request that names any other host is refused, whatever
/// its origin and the configured origins are: that the two headers agree does
/// not help.
pub proof fn law_rebinding_is_refused(
    host: Seq<char>,
    origin: Option<Seq<char>>,
    bound_host: Seq<char>,
    port: u16,
    extra: Seq<Seq<char>>,
)
    requires
        is_loopback_name(bound_host),
        !allowed_host(host, true),
    ensures
        upgrade_refusal(Some(host), origin, bound_host, port, extra) is Some,
{
}

/// A client that sends no `Origin` is refused only for its `Host`, and one that
/// sends neither header is never refused.
pub proof fn law_non_browser_client_is_allowed(
    host: Option<Seq<char>>,
    bound_host: Seq<char>,
    port: u16,
    extra: Seq<Seq<char>>,
)
    requires
        host is Some ==> allowed_host(host->0, is_loopback_name(bound_host)),
    ensures
        upgrade_refusal(host, None, bound_host, port, extra) is None,
        upgrade_refusal(None, None, bound_host, port, extra) is None,
{
}

/// A page served by the gateway's own host is allowed on a bind that is not
/// loopback, whatever that host is called.
pub proof fn law_same_origin_is_allowed(
    host: Seq<char>,
    origin: Seq<char>,
    bound_host: Seq<char>,
    port: u16,
    extra: Seq<Seq<char>>,
)
    requires
        !is_loopback_name(bound_host),
        same_origin(origin, host),
    ensures
        upgrade_refusal(Some(host), Some(origin), bound_host, port, extra) is None,
{
}

/// A foreign page is refused: one whose origin is neither the addressed host nor
/// configured, nor one of the gateway's own or the shell's.
pub proof fn law_foreign_page_is_refused(
    host: Option<Seq<char>>,
    origin: Seq<char>,
    bound_host: Seq<char>,
    port: u16,
    extra: Seq<Seq<char>>,
)
    requires
        host is Some ==> !same_origin(origin, host->0),
        host is None ==> !same_origin(origin, Seq::empty()),
        !extra.contains(origin),
        !is_shell_origin(origin),
        !own_origins(port).contains(origin),
    ensures
        upgrade_refusal(host, Some(origin), bound_host, port, extra) is Some,
{
}

} // verus!
