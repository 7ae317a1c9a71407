//! Laws of who may reach the gateway.
use vstd::prelude::*;

use crate::gateway::auth::{cookie_in, extract_session_cookie_from_headers, header, session_cookie};
use crate::gateway::auth::ws_origin::{
    check_upgrade, host_allowed, is_loopback_bind, local_origins, origin_allowed,
    origin_matches_host, own_origins, refuse_upgrade, split_host,
};
use crate::gateway::config::security::SecurityConfig;
use crate::gateway::handlers::ws_ticket::{ws_ticket_grant, RestAuthContext};
use crate::laws::text::{
    law_a_beginning_is_taken_away, law_a_text_is_split_at_the_first_separator,
    law_a_text_occurs_where_it_stands, law_a_trimmed_text_stays,
    law_trimming_a_character_takes_only_that,
};
use crate::text::{
    ascii_lower, decimal, is_space, opt_text, pieces, split_first, stands_at, texts, trimmed,
    trimmed_end_of,
};

verus! {

/// A page of this machine at the gateway's own port is let in, by either scheme
/// and by any of the three names of the machine; so are the desktop shell and what
/// is listed. Nothing else is.
pub proof fn law_own_pages_are_let_in(origin: &str, port: u16, extra: &[String], r: bool)
    requires
        call_ensures(origin_allowed, (origin, port, extra), r),
    ensures
        r <==> is_own_page(origin@, port) || origin@ == "tauri://localhost"@ || origin@
            == "http://tauri.localhost"@ || origin@ == "https://tauri.localhost"@ || texts(
            extra@,
        ).contains(origin@),
{
    let own = own_origins(port);
    assert(own[0] == "http"@ + "://"@ + "localhost"@ + ":"@ + decimal(port as nat));
    assert(own[1] == "http"@ + "://"@ + "127.0.0.1"@ + ":"@ + decimal(port as nat));
    assert(own[2] == "http"@ + "://"@ + "[::1]"@ + ":"@ + decimal(port as nat));
    assert(own[3] == "https"@ + "://"@ + "localhost"@ + ":"@ + decimal(port as nat));
    assert(own[4] == "https"@ + "://"@ + "127.0.0.1"@ + ":"@ + decimal(port as nat));
    assert(own[5] == "https"@ + "://"@ + "[::1]"@ + ":"@ + decimal(port as nat));
}

/// Whether an origin is a page of this machine at a port.
pub open spec fn is_own_page(origin: Seq<char>, port: u16) -> bool {
    exists|scheme: Seq<char>, host: Seq<char>|
        (scheme == "http"@ || scheme == "https"@) && (host == "localhost"@ || host
            == "127.0.0.1"@ || host == "[::1]"@) && origin == #[trigger] (scheme + "://"@ + host
            + ":"@ + decimal(port as nat))
}

/// A page is of the same origin as the host that it is sent to where the address
/// behind its scheme is that host, whatever the case and whatever the scheme.
pub proof fn law_a_page_matches_its_own_host(
    origin: &str,
    host: &str,
    scheme: Seq<char>,
    address: Seq<char>,
    r: bool,
)
    requires
        call_ensures(origin_matches_host, (origin, host), r),
        origin@ == scheme + "://"@ + address,
        !scheme.contains(':'),
        host@.len() == 0 || (!is_space(host@[0]) && !is_space(host@.last())),
    ensures
        address.len() == 0 || address.last() != '/' ==> (r <==> ascii_lower(address)
            == ascii_lower(host@)),
        ascii_lower(address) == ascii_lower(host@ + seq!['/']) && host@.len() > 0 && host@.last()
            != '/' ==> r,
{
    reveal_strlit("://");
    law_a_trimmed_text_stays(host@);
    law_a_text_is_split_at_the_first_separator(origin@, "://"@);
    law_a_text_occurs_where_it_stands(scheme, "://"@, address, origin@);
    let (a, b) = split_first(origin@, "://"@)->0;
    assert(origin@ == a + "://"@ + b);
    let n = scheme.len() as int;
    assert(origin@.subrange(n, n + 3) =~= "://"@);
    assert(stands_at(origin@, "://"@, n));
    if a.len() < n {
        assert((a + "://"@ + b)[a.len() as int] == ':');
        assert(scheme[a.len() as int] == ':');
    }
    assert(a.len() == n);
    assert(b =~= origin@.skip(n + 3));
    assert(b =~= address);
    law_trimming_a_character_takes_only_that(address, '/');
    if address.len() == 0 || address.last() != '/' {
        assert(crate::text::before_char(address, '/', 0, address.len() as int) == address.len());
        assert(trimmed_end_of(address, '/') =~= address);
    }
    if ascii_lower(address) == ascii_lower(host@ + seq!['/']) && host@.len() > 0 && host@.last()
        != '/' {
        let low = ascii_lower(host@ + seq!['/']);
        let m = address.len() as int;
        assert(ascii_lower(address).len() == m);
        assert(low.len() == host@.len() + 1);
        assert(low[m - 1] == '/');
        assert(ascii_lower(address)[m - 1] == '/');
        assert(address[m - 1] == '/');
        assert(low[m - 2] == ascii_lower(host@)[m - 2]);
        assert(ascii_lower(address)[m - 2] != '/') by {
            assert(ascii_lower(address)[m - 2] == low[m - 2]);
            assert(host@[m - 2] != '/');
        }
        assert(address[m - 2] != '/');
        assert(crate::text::before_char(address, '/', 0, m) == crate::text::before_char(
            address,
            '/',
            0,
            m - 1,
        ));
        assert(crate::text::before_char(address, '/', 0, m - 1) == m - 1);
        let cut = trimmed_end_of(address, '/');
        assert(cut =~= address.take(m - 1));
        assert forall|i: int| 0 <= i < m - 1 implies ascii_lower(cut)[i] == ascii_lower(host@)[i] by {
            assert(ascii_lower(address)[i] == low[i]);
        }
        assert(ascii_lower(cut) =~= ascii_lower(host@));
    }
}

/// Whether a host was split into a name and a port.
pub open spec fn is_split_into(
    r: Option<(String, Option<String>)>,
    name: Seq<char>,
    port: Option<Seq<char>>,
) -> bool {
    r matches Some((n, p)) && n@ == name && opt_text(p) == port
}

/// Whether a host that was split has a name.
pub open spec fn has_name(r: Option<(String, Option<String>)>, name: Seq<char>) -> bool {
    r matches Some((n, _)) && n@ == name
}

/// A host is split into its name and its port at the colon; a name in brackets
/// may hold colons itself.
pub proof fn law_a_host_is_split_at_its_port(
    header: &str,
    name: Seq<char>,
    port: Seq<char>,
    r: Option<(String, Option<String>)>,
)
    requires
        call_ensures(split_host, (header,), r),
        name.len() > 0,
        !is_space(name[0]) && !is_space(name.last()),
        port.len() > 0 ==> !is_space(port.last()),
        name[0] != '[',
    ensures
        header@ == name && !name.contains(':') ==> is_split_into(r, name, None),
        header@ == name + seq![':'] + port && !name.contains(':') && port.len() > 0 ==> is_split_into(
            r,
            name,
            Some(port),
        ),
        header@ == seq!['['] + name + seq![']'] && !name.contains(']') ==> is_split_into(
            r,
            name,
            None,
        ),
        header@ == seq!['['] + name + seq![']', ':'] + port && !name.contains(']') && port.len() > 0
            ==> is_split_into(r, name, Some(port)),
{
    reveal_strlit("[");
    reveal_strlit("]");
    reveal_strlit(":");
    assert("["@ =~= seq!['[']);
    assert("]"@ =~= seq![']']);
    assert(":"@ =~= seq![':']);
    let none = Seq::<char>::empty();
    if header@ == name && !name.contains(':') {
        law_a_trimmed_text_stays(header@);
        lemma_splits_at(name, ':', none);
        assert(!"["@.is_prefix_of(name)) by {
            if "["@.is_prefix_of(name) {
                assert(name[0] == "["@[0]);
            }
        }
    }
    if header@ == name + seq![':'] + port && !name.contains(':') && port.len() > 0 {
        assert(header@[0] == name[0] && header@.last() == port.last());
        law_a_trimmed_text_stays(header@);
        lemma_splits_at(name, ':', port);
        assert(!"["@.is_prefix_of(header@)) by {
            if "["@.is_prefix_of(header@) {
                assert(header@[0] == "["@[0]);
            }
        }
    }
    if header@ == seq!['['] + name + seq![']'] && !name.contains(']') {
        assert(header@[0] == '[' && header@.last() == ']');
        law_a_trimmed_text_stays(header@);
        assert(header@ =~= "["@ + (name + seq![']'] + none));
        law_a_beginning_is_taken_away("["@, name + seq![']'] + none, header@);
        lemma_splits_at(name, ']', none);
    }
    if header@ == seq!['['] + name + seq![']', ':'] + port && !name.contains(']') && port.len() > 0 {
        assert(header@[0] == '[' && header@.last() == port.last());
        law_a_trimmed_text_stays(header@);
        let tail = seq![':'] + port;
        assert(header@ =~= "["@ + (name + seq![']'] + tail));
        law_a_beginning_is_taken_away("["@, name + seq![']'] + tail, header@);
        lemma_splits_at(name, ']', tail);
        law_a_beginning_is_taken_away(":"@, port, tail);
        assert(tail =~= ":"@ + port);
    }
}

proof fn lemma_splits_at(a: Seq<char>, c: char, b: Seq<char>)
    requires
        !a.contains(c),
    ensures
        split_first(a + seq![c] + b, seq![c]) == Some((a, b)),
        split_first(a, seq![c]) is None,
{
    let s = a + seq![c] + b;
    let n = a.len() as int;
    law_a_text_is_split_at_the_first_separator(s, seq![c]);
    law_a_text_is_split_at_the_first_separator(a, seq![c]);
    law_a_text_occurs_where_it_stands(a, seq![c], b, s);
    let (x, y) = split_first(s, seq![c])->0;
    assert(s == x + seq![c] + y);
    assert(s.subrange(n, n + 1) =~= seq![c]);
    assert(stands_at(s, seq![c], n));
    if x.len() < n {
        assert((x + seq![c] + y)[x.len() as int] == c);
        assert(a[x.len() as int] == c);
    }
    assert(x.len() == n);
    assert(x =~= s.take(n) && a =~= s.take(n));
    assert(y =~= s.skip(n + 1) && b =~= s.skip(n + 1));
    if split_first(a, seq![c]) is Some {
        let (p, q) = split_first(a, seq![c])->0;
        assert((p + seq![c] + q)[p.len() as int] == c);
        assert(a.contains(c));
    }
}

/// A gateway that is bound to this machine answers to the names of this machine
/// only, at whatever port; one that is bound elsewhere answers to any.
pub proof fn law_a_local_gateway_answers_to_local_names(
    header: &str,
    bound_loopback: bool,
    parts: Option<(String, Option<String>)>,
    r: bool,
    name: &str,
    local: bool,
)
    requires
        call_ensures(host_allowed, (header, bound_loopback), r),
        call_ensures(split_host, (header,), parts),
        call_ensures(is_loopback_bind, (name,), local),
    ensures
        !bound_loopback ==> r,
        bound_loopback && parts is None ==> !r,
        bound_loopback && has_name(parts, name@) ==> (r <==> local),
        local <==> name@ == "localhost"@ || name@ == "127.0.0.1"@ || name@ == "::1"@ || name@
            == "[::1]"@,
{
}

/// An upgrade is refused just for its host or its origin: for a host that the
/// gateway does not answer to, or for an origin that neither is of that host nor
/// is let in. What is refused is named.
pub proof fn law_an_upgrade_is_refused_for_its_host_or_origin(
    host: &Option<String>,
    origin: &Option<String>,
    bound_host: &str,
    port: u16,
    extra: &[String],
    r: Option<String>,
    bound: bool,
    answers: bool,
    same: bool,
    let_in: bool,
    h: &str,
    o: &str,
)
    requires
        call_ensures(refuse_upgrade, (host, origin, bound_host, port, extra), r),
        call_ensures(is_loopback_bind, (bound_host,), bound),
        *host is Some && h@ == host->0@,
        *origin is Some && o@ == origin->0@,
        call_ensures(host_allowed, (h, bound), answers),
        call_ensures(origin_matches_host, (o, h), same),
        call_ensures(origin_allowed, (o, port, extra), let_in),
    ensures
        r is None <==> answers && (same || let_in),
        !answers ==> r->0@ == "unexpected Host: "@ + h@,
        answers && !same && !let_in ==> r->0@ == "origin not allowed: "@ + o@,
{
}

/// The cookie that is found is the first of its name; cookies of other names
/// before it do not matter.
pub proof fn law_the_first_cookie_of_its_name_is_found(
    cookies: &str,
    name: &str,
    r: Option<String>,
    i: int,
    value: Seq<char>,
)
    requires
        call_ensures(session_cookie, (cookies, name), r),
        0 <= i < pieces(cookies@, ';').len(),
        !name@.contains('='),
        trimmed(pieces(cookies@, ';')[i]) == name@ + seq!['='] + value,
        forall|k: int|
            0 <= k < i ==> is_other_cookie(#[trigger] pieces(cookies@, ';')[k], name@),
    ensures
        r is Some && r->0@ == value,
{
    lemma_cookie(pieces(cookies@, ';'), name@, i, value);
}

/// Whether a piece of a cookie header is a cookie of another name.
pub open spec fn is_other_cookie(piece: Seq<char>, name: Seq<char>) -> bool {
    exists|other: Seq<char>, value: Seq<char>|
        other != name && !other.contains('=') && trimmed(piece) == #[trigger] (other + seq!['=']
            + value)
}

proof fn lemma_cookie(ps: Seq<Seq<char>>, name: Seq<char>, i: int, value: Seq<char>)
    requires
        0 <= i < ps.len(),
        !name.contains('='),
        trimmed(ps[i]) == name + seq!['='] + value,
        forall|k: int| 0 <= k < i ==> is_other_cookie(#[trigger] ps[k], name),
    ensures
        cookie_in(ps, name) == Some(value),
    decreases i,
{
    reveal_strlit("=");
    assert("="@ =~= seq!['=']);
    if i == 0 {
        lemma_splits_at(name, '=', value);
    } else {
        assert(is_other_cookie(ps[0], name));
        let (other, v) = choose|other: Seq<char>, v: Seq<char>|
            other != name && !other.contains('=') && trimmed(ps[0]) == #[trigger] (other
                + seq!['='] + v);
        lemma_splits_at(other, '=', v);
        let rest = ps.skip(1);
        assert(rest[i - 1] == ps[i]);
        assert forall|k: int| 0 <= k < i - 1 implies is_other_cookie(#[trigger] rest[k], name) by {
            assert(rest[k] == ps[k + 1]);
        }
        lemma_cookie(rest, name, i - 1, value);
    }
}

/// A cookie that is found stands in the header under its name.
pub proof fn law_a_found_cookie_stands_in_the_header(
    cookies: &str,
    name: &str,
    r: Option<String>,
)
    requires
        call_ensures(session_cookie, (cookies, name), r),
        r is Some,
    ensures
        exists|i: int|
            0 <= i < pieces(cookies@, ';').len() && trimmed(
                #[trigger] pieces(cookies@, ';')[i],
            ) == name@ + seq!['='] + r->0@,
{
    lemma_found(pieces(cookies@, ';'), name@);
    let v = cookie_in(pieces(cookies@, ';'), name@)->0;
    let i = choose|i: int|
        0 <= i < pieces(cookies@, ';').len() && trimmed(#[trigger] pieces(cookies@, ';')[i])
            == name@ + seq!['='] + v;
}

proof fn lemma_found(ps: Seq<Seq<char>>, name: Seq<char>)
    requires
        cookie_in(ps, name) is Some,
    ensures
        exists|i: int|
            0 <= i < ps.len() && trimmed(#[trigger] ps[i]) == name + seq!['='] + cookie_in(
                ps,
                name,
            )->0,
    decreases ps.len(),
{
    reveal_strlit("=");
    assert("="@ =~= seq!['=']);
    law_a_text_is_split_at_the_first_separator(trimmed(ps[0]), "="@);
    let (n, v) = split_first(trimmed(ps[0]), "="@)->0;
    if n == name {
        assert(trimmed(ps[0]) == name + seq!['='] + v);
    } else {
        lemma_found(ps.skip(1), name);
        let w = cookie_in(ps, name)->0;
        let i = choose|i: int|
            0 <= i < ps.skip(1).len() && trimmed(#[trigger] ps.skip(1)[i]) == name + seq!['=']
                + w;
        assert(ps[i + 1] == ps.skip(1)[i]);
    }
}

/// A ticket grants what the request was granted; a request without a context gets
/// the local scopes, as anonymous.
pub proof fn law_a_ticket_grants_no_more_than_the_request(
    auth: Option<RestAuthContext>,
    security: &SecurityConfig,
    r: RestAuthContext,
)
    requires
        call_ensures(ws_ticket_grant, (auth, security), r),
    ensures
        auth is Some ==> r.user_id == auth->0.user_id && r.scopes == auth->0.scopes,
        auth is None ==> r.user_id@ == "anonymous"@ && texts(r.scopes@) == texts(
            security.local_scopes@,
        ),
{
}

/// A request is upgraded just where its host and its origin are not refused, and a
/// refusal gives the same reason.
pub proof fn law_an_upgrade_is_checked_by_its_headers(
    headers: &axum::http::HeaderMap,
    bound_host: &str,
    port: u16,
    extra: &[String],
    r: Result<(), String>,
    host: &Option<String>,
    origin: &Option<String>,
    refused: Option<String>,
)
    requires
        call_ensures(check_upgrade, (headers, bound_host, port, extra), r),
        call_ensures(refuse_upgrade, (host, origin, bound_host, port, extra), refused),
        opt_text(*host) == header(*headers, "host"@),
        opt_text(*origin) == header(*headers, "origin"@),
    ensures
        r is Ok <==> refused is None,
        r is Err ==> r->Err_0@ == refused->0@,
{
}

/// The session of a request is the cookie of its header; a request without cookies
/// has none.
pub proof fn law_the_session_comes_from_the_cookie_header(
    headers: &axum::http::HeaderMap,
    name: &str,
    r: Option<String>,
    cookies: &str,
    found: Option<String>,
)
    requires
        call_ensures(extract_session_cookie_from_headers, (headers, name), r),
        call_ensures(session_cookie, (cookies, name), found),
    ensures
        header(*headers, "cookie"@) is None ==> r is None,
        header(*headers, "cookie"@) == Some(cookies@) ==> opt_text(r) == opt_text(found),
{
}

/// The origins of this machine are those of its names at the port, and each is let
/// in there.
pub proof fn law_local_origins_are_let_in(
    port: u16,
    r: Vec<String>,
    i: int,
    origin: &str,
    extra: &[String],
    let_in: bool,
)
    requires
        call_ensures(local_origins, (port,), r),
        0 <= i < r@.len(),
        origin@ == r@[i]@,
        call_ensures(origin_allowed, (origin, port, extra), let_in),
    ensures
        r@.len() == 6,
        let_in,
{
    assert(texts(r@).len() == r@.len());
    assert(texts(r@)[i] == origin@);
    assert(own_origins(port).contains(origin@));
}

} // verus!
