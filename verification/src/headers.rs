//! Header rules of the proxy: local authentication, which headers cross the
//! proxy in each direction, and the header list sent upstream.

use subtle::ConstantTimeEq;
use vstd::prelude::*;
use vstd::slice::*;
use vstd::string::*;

use crate::text::{ascii_lower, chars_equal_str, lower_chars};

verus! {

/// One header of an HTTP message: its name and its raw value bytes.
#[derive(Debug, Clone)]
pub struct RequestHeader {
    pub name: String,
    pub value: Vec<u8>,
}

/// The abstract content of a [`RequestHeader`].
pub struct RequestHeaderView {
    pub name: Seq<char>,
    pub value: Seq<u8>,
}

impl View for RequestHeader {
    type V = RequestHeaderView;

    open spec fn view(&self) -> RequestHeaderView {
        RequestHeaderView { name: self.name@, value: self.value@ }
    }
}

/// The views of a sequence of headers.
pub open spec fn headers_view(v: Seq<RequestHeader>) -> Seq<RequestHeaderView> {
    v.map_values(|h: RequestHeader| h@)
}

impl RequestHeader {
    /// A copy of this header.
    pub fn duplicate(&self) -> (r: RequestHeader)
        ensures
            r@ == self@,
    {
        RequestHeader { name: self.name.clone(), value: slice_to_vec(self.value.as_slice()) }
    }
}

/// Connection-level headers that never cross the proxy (lowercase names).
pub open spec fn hop_by_hop(l: Seq<char>) -> bool {
    ||| l == "connection"@
    ||| l == "proxy-connection"@
    ||| l == "keep-alive"@
    ||| l == "transfer-encoding"@
    ||| l == "te"@
    ||| l == "trailer"@
    ||| l == "upgrade"@
}

/// Whether a client request header named `name` is passed upstream.
pub open spec fn forwards_request_header(name: Seq<char>) -> bool {
    let l = ascii_lower(name);
    !(l == "authorization"@ || l == "host"@ || hop_by_hop(l))
}

/// Whether an upstream response header named `name` is passed to the client.
pub open spec fn forwards_response_header(name: Seq<char>) -> bool {
    !hop_by_hop(ascii_lower(name))
}

fn is_hop_by_hop(l: &Vec<char>) -> (r: bool)
    ensures
        r == hop_by_hop(l@),
{
    chars_equal_str(l, "connection") || chars_equal_str(l, "proxy-connection") || chars_equal_str(
        l,
        "keep-alive",
    ) || chars_equal_str(l, "transfer-encoding") || chars_equal_str(l, "te") || chars_equal_str(
        l,
        "trailer",
    ) || chars_equal_str(l, "upgrade")
}

/// Whether a client request header named `name` is passed upstream: the
/// client's `Authorization`, `Host` and the hop-by-hop headers are not.
pub fn should_forward_request_header(name: &str) -> (r: bool)
    ensures
        r == forwards_request_header(name@),
{
    let l = lower_chars(name);
    !(chars_equal_str(&l, "authorization") || chars_equal_str(&l, "host") || is_hop_by_hop(&l))
}

/// Whether an upstream response header named `name` is passed to the client:
/// the hop-by-hop headers are not.
pub fn should_forward_response_header(name: &str) -> (r: bool)
    ensures
        r == forwards_response_header(name@),
{
    let l = lower_chars(name);
    !is_hop_by_hop(&l)
}

/// The headers of `hs` that pass `keep`, in their order.
pub open spec fn filter_headers(hs: Seq<RequestHeaderView>, keep: spec_fn(Seq<char>) -> bool) -> Seq<
    RequestHeaderView,
>
    decreases hs.len(),
{
    if hs.len() == 0 {
        Seq::empty()
    } else {
        let rest = filter_headers(hs.drop_last(), keep);
        if keep(hs.last().name) {
            rest.push(hs.last())
        } else {
            rest
        }
    }
}

/// The client request headers that are passed upstream, in their order.
pub fn forwarded_request_headers(hs: &Vec<RequestHeader>) -> (r: Vec<RequestHeader>)
    ensures
        headers_view(r@) == filter_headers(
            headers_view(hs@),
            |n: Seq<char>| forwards_request_header(n),
        ),
{
    let ghost keep = |n: Seq<char>| forwards_request_header(n);
    let mut r: Vec<RequestHeader> = Vec::new();
    let mut i: usize = 0;
    while i < hs.len()
        invariant
            i <= hs@.len(),
            keep == (|n: Seq<char>| forwards_request_header(n)),
            headers_view(r@) == filter_headers(headers_view(hs@).take(i as int), keep),
        decreases hs.len() - i,
    {
        let h = &hs[i];
        assert(headers_view(hs@).take(i + 1).drop_last() =~= headers_view(hs@).take(i as int));
        let ghost prev = r@;
        assert(headers_view(hs@).take(i + 1).last() == h@);
        let pass = should_forward_request_header(h.name.as_str());
        assert(pass == keep(h@.name));
        if pass {
            r.push(h.duplicate());
            assert(headers_view(r@) =~= headers_view(prev).push(h@));
        }
        proof {
            let t1 = headers_view(hs@).take(i + 1);
            assert(t1.len() > 0);
            assert(filter_headers(t1, keep) == (if keep(t1.last().name) {
                filter_headers(t1.drop_last(), keep).push(t1.last())
            } else {
                filter_headers(t1.drop_last(), keep)
            }));
            assert(t1.drop_last() =~= headers_view(hs@).take(i as int));
        }
        i = i + 1;
    }
    assert(headers_view(hs@).take(hs@.len() as int) =~= headers_view(hs@));
    r
}

/// The upstream response headers that are passed to the client, in their order.
pub fn forwarded_response_headers(hs: &Vec<RequestHeader>) -> (r: Vec<RequestHeader>)
    ensures
        headers_view(r@) == filter_headers(
            headers_view(hs@),
            |n: Seq<char>| forwards_response_header(n),
        ),
{
    let ghost keep = |n: Seq<char>| forwards_response_header(n);
    let mut r: Vec<RequestHeader> = Vec::new();
    let mut i: usize = 0;
    while i < hs.len()
        invariant
            i <= hs@.len(),
            keep == (|n: Seq<char>| forwards_response_header(n)),
            headers_view(r@) == filter_headers(headers_view(hs@).take(i as int), keep),
        decreases hs.len() - i,
    {
        let h = &hs[i];
        assert(headers_view(hs@).take(i + 1).drop_last() =~= headers_view(hs@).take(i as int));
        let ghost prev = r@;
        assert(headers_view(hs@).take(i + 1).last() == h@);
        let pass = should_forward_response_header(h.name.as_str());
        assert(pass == keep(h@.name));
        if pass {
            r.push(h.duplicate());
            assert(headers_view(r@) =~= headers_view(prev).push(h@));
        }
        proof {
            let t1 = headers_view(hs@).take(i + 1);
            assert(t1.len() > 0);
            assert(filter_headers(t1, keep) == (if keep(t1.last().name) {
                filter_headers(t1.drop_last(), keep).push(t1.last())
            } else {
                filter_headers(t1.drop_last(), keep)
            }));
            assert(t1.drop_last() =~= headers_view(hs@).take(i as int));
        }
        i = i + 1;
    }
    assert(headers_view(hs@).take(hs@.len() as int) =~= headers_view(hs@));
    r
}

/// The value of the first header of `hs` whose name is `name` (ASCII case
/// ignored), as a header map's `get` finds it.
pub open spec fn find_header(hs: Seq<RequestHeaderView>, name: Seq<char>) -> Option<Seq<u8>>
    decreases hs.len(),
{
    if hs.len() == 0 {
        None
    } else if ascii_lower(hs[0].name) == name {
        Some(hs[0].value)
    } else {
        find_header(hs.drop_first(), name)
    }
}

/// A byte that a header value may hold to be read as text (`HeaderValue::to_str`).
pub open spec fn visible_ascii(b: u8) -> bool {
    (32 <= b && b < 127) || b == 9
}

/// The bytes of `"Bearer "`.
pub open spec fn bearer_prefix() -> Seq<u8> {
    seq![66u8, 101u8, 97u8, 114u8, 101u8, 114u8, 32u8]
}

/// Whether an `Authorization` value reads as text and is `"Bearer "` followed
/// by exactly the bytes of `expected`.
pub open spec fn bearer_matches(v: Seq<u8>, expected: Seq<u8>) -> bool {
    &&& forall|i: int| 0 <= i < v.len() ==> visible_ascii(#[trigger] v[i])
    &&& v.len() >= 7
    &&& v.take(7) == bearer_prefix()
    &&& v.skip(7) == expected
}

/// Whether a request with headers `hs` carries the local proxy token `expected`.
pub open spec fn is_authorized(hs: Seq<RequestHeaderView>, expected: Seq<u8>) -> bool {
    match find_header(hs, "authorization"@) {
        Some(v) => bearer_matches(v, expected),
        None => false,
    }
}

/// Compares two byte strings in time independent of their contents.
/// Calls `subtle::ConstantTimeEq::ct_eq` on two slices; trusted to return
/// `true` exactly when the slices are equal (the crate first compares the
/// lengths, then every byte).
#[verifier::external_body]
fn constant_time_eq(a: &[u8], b: &[u8]) -> (r: bool)
    ensures
        r == (a@ == b@),
{
    a.ct_eq(b).into()
}

/// Whether the request headers carry `Authorization: Bearer <expected>`.
/// The first `Authorization` header decides; its value must be visible ASCII,
/// start with `"Bearer "`, and the rest must equal the token exactly.
pub fn authorized(headers: &Vec<RequestHeader>, expected: &str) -> (r: bool)
    ensures
        r == is_authorized(headers_view(headers@), expected.spec_bytes()),
{
    let ghost hv = headers_view(headers@);
    assert(hv.skip(0) =~= hv);
    let mut i: usize = 0;
    while i < headers.len()
        invariant
            i <= headers@.len(),
            hv == headers_view(headers@),
            find_header(hv, "authorization"@) == find_header(hv.skip(i as int), "authorization"@),
        decreases headers.len() - i,
    {
        let l = lower_chars(headers[i].name.as_str());
        assert(hv.skip(i as int).drop_first() =~= hv.skip(i + 1));
        if chars_equal_str(&l, "authorization") {
            return bearer_check(&headers[i].value, expected);
        }
        i = i + 1;
    }
    false
}

fn bearer_check(v: &Vec<u8>, expected: &str) -> (r: bool)
    ensures
        r == bearer_matches(v@, expected.spec_bytes()),
{
    let mut i: usize = 0;
    while i < v.len()
        invariant
            i <= v@.len(),
            forall|k: int| 0 <= k < i ==> visible_ascii(#[trigger] v@[k]),
        decreases v.len() - i,
    {
        let b = v[i];
        if !((32 <= b && b < 127) || b == 9) {
            return false;
        }
        i = i + 1;
    }
    if v.len() < 7 {
        return false;
    }
    if !(v[0] == 66 && v[1] == 101 && v[2] == 97 && v[3] == 114 && v[4] == 101 && v[5] == 114
        && v[6] == 32) {
        assert(v@.take(7) != bearer_prefix()) by {
            assert(!(v@.take(7) =~= bearer_prefix()));
        }
        return false;
    }
    assert(v@.take(7) =~= bearer_prefix());
    let token = slice_subrange(v.as_slice(), 7, v.len());
    assert(token@ =~= v@.skip(7));
    constant_time_eq(token, expected.as_bytes())
}


/// The `Authorization` header that carries a provider's API key upstream.
pub open spec fn authorization_header(key: Seq<u8>) -> RequestHeaderView {
    RequestHeaderView { name: "authorization"@, value: bearer_prefix() + key }
}

/// The headers of an upstream request: the provider's key, then the client's
/// headers that may be forwarded, then the provider's extra headers.
pub open spec fn upstream_headers(
    key: Seq<u8>,
    incoming: Seq<RequestHeaderView>,
    extra: Seq<RequestHeaderView>,
) -> Seq<RequestHeaderView> {
    seq![authorization_header(key)] + filter_headers(
        incoming,
        |n: Seq<char>| forwards_request_header(n),
    ) + extra
}

/// The headers to send upstream for a client request with headers `incoming`
/// to a provider with key `api_key` and extra headers `extra`.
pub fn upstream_request_headers(
    api_key: &str,
    incoming: &Vec<RequestHeader>,
    extra: &Vec<RequestHeader>,
) -> (r: Vec<RequestHeader>)
    ensures
        headers_view(r@) == upstream_headers(
            api_key.spec_bytes(),
            headers_view(incoming@),
            headers_view(extra@),
        ),
{
    let mut value: Vec<u8> = Vec::new();
    value.push(66u8);
    value.push(101u8);
    value.push(97u8);
    value.push(114u8);
    value.push(101u8);
    value.push(114u8);
    value.push(32u8);
    let key = api_key.as_bytes();
    value.extend_from_slice(key);
    assert(value@ =~= bearer_prefix() + api_key.spec_bytes());
    let mut r: Vec<RequestHeader> = Vec::new();
    r.push(RequestHeader { name: "authorization".to_owned(), value });
    let mut fwd = forwarded_request_headers(incoming);
    r.append(&mut fwd);
    let ghost base = headers_view(r@);
    assert(base =~= seq![authorization_header(api_key.spec_bytes())] + filter_headers(
        headers_view(incoming@),
        |n: Seq<char>| forwards_request_header(n),
    ));
    let ghost ev = headers_view(extra@);
    let mut i: usize = 0;
    while i < extra.len()
        invariant
            i <= extra@.len(),
            ev == headers_view(extra@),
            headers_view(r@) == base + ev.take(i as int),
        decreases extra.len() - i,
    {
        let p = &extra[i];
        let h = RequestHeader { name: p.name.clone(), value: slice_to_vec(p.value.as_slice()) };
        let ghost prev = r@;
        r.push(h);
        assert(headers_view(r@) =~= headers_view(prev).push(h@));
        assert(ev.take(i + 1) =~= ev.take(i as int).push(extra@[i as int]@));
        assert(headers_view(r@) =~= base + ev.take(i + 1));
        i = i + 1;
    }
    assert(ev.take(extra@.len() as int) =~= ev);
    r
}

/// Every header that a filter keeps passes it.
pub proof fn lemma_filter_headers_kept(hs: Seq<RequestHeaderView>, keep: spec_fn(Seq<char>) -> bool)
    ensures
        forall|i: int|
            0 <= i < filter_headers(hs, keep).len() ==> keep(
                #[trigger] filter_headers(hs, keep)[i].name,
            ),
        filter_headers(hs, keep).len() <= hs.len(),
    decreases hs.len(),
{
    if hs.len() > 0 {
        lemma_filter_headers_kept(hs.drop_last(), keep);
    }
}

/// Header names (lowercase) that a provider's extra headers may not use.
pub open spec fn reserved_header(l: Seq<char>) -> bool {
    l == "authorization"@ || l == "host"@ || l == "content-length"@ || hop_by_hop(l)
}

/// Whether a lowercase header name is reserved.
pub fn is_reserved_header(l: &Vec<char>) -> (r: bool)
    ensures
        r == reserved_header(l@),
{
    chars_equal_str(l, "authorization") || chars_equal_str(l, "host") || chars_equal_str(
        l,
        "content-length",
    ) || is_hop_by_hop(l)
}

/// The upstream request carries the provider's key and nothing that the client
/// sent as `Authorization`: its first header is `Authorization: Bearer <key>`,
/// and, where the provider's extra headers avoid the reserved names, no other
/// header is named `Authorization` and none is a hop-by-hop header.
pub proof fn upstream_authorization_is_the_providers(
    key: Seq<u8>,
    incoming: Seq<RequestHeaderView>,
    extra: Seq<RequestHeaderView>,
)
    requires
        forall|j: int| 0 <= j < extra.len() ==> !reserved_header(ascii_lower(#[trigger] extra[j].name)),
    ensures
        upstream_headers(key, incoming, extra)[0] == authorization_header(key),
        forall|i: int|
            1 <= i < upstream_headers(key, incoming, extra).len() ==> {
                let l = ascii_lower(#[trigger] upstream_headers(key, incoming, extra)[i].name);
                l != "authorization"@ && !hop_by_hop(l)
            },
{
    let keep = |n: Seq<char>| forwards_request_header(n);
    let f = filter_headers(incoming, keep);
    let e = extra;
    lemma_filter_headers_kept(incoming, keep);
    let u = upstream_headers(key, incoming, extra);
    assert(u =~= seq![authorization_header(key)] + f + e);
    assert forall|i: int| 1 <= i < u.len() implies {
        let l = ascii_lower(#[trigger] u[i].name);
        l != "authorization"@ && !hop_by_hop(l)
    } by {
        if i < 1 + f.len() {
            assert(u[i] == f[i - 1]);
            assert(keep(f[i - 1].name));
        } else {
            assert(u[i] == e[i - 1 - f.len()]);
        }
    }
}


/// An upstream request carries one header more than the client headers it
/// forwards and the provider's extra headers together: the provider's key
/// first, then the forwarded headers in order, then every extra header, in
/// order and unchanged.
pub proof fn upstream_headers_carry_every_extra(
    key: Seq<u8>,
    incoming: Seq<RequestHeaderView>,
    extra: Seq<RequestHeaderView>,
)
    ensures
        ({
            let f = filter_headers(incoming, |n: Seq<char>| forwards_request_header(n));
            let u = upstream_headers(key, incoming, extra);
            &&& u.len() == 1 + f.len() + extra.len()
            &&& u[0] == authorization_header(key)
            &&& forall|i: int| 0 <= i < f.len() ==> #[trigger] u[1 + i] == f[i]
            &&& forall|j: int| 0 <= j < extra.len() ==> #[trigger] u[1 + f.len() + j] == extra[j]
        }),
{
    let f = filter_headers(incoming, |n: Seq<char>| forwards_request_header(n));
    let u = upstream_headers(key, incoming, extra);
    assert(u =~= seq![authorization_header(key)] + f + extra);
}

/// A character that a header name may hold (an RFC 9110 `tchar`).
pub open spec fn token_char(c: char) -> bool {
    ||| ('0' <= c <= '9')
    ||| ('a' <= c <= 'z')
    ||| ('A' <= c <= 'Z')
    ||| c == '!' || c == '#' || c == '$' || c == '%' || c == '&' || c == '\''
    ||| c == '*' || c == '+' || c == '-' || c == '.' || c == '^' || c == '_'
    ||| c == '`' || c == '|' || c == '~'
}

/// Whether `s` is accepted as a header name.
pub open spec fn valid_header_name(s: Seq<char>) -> bool {
    &&& 1 <= s.len() <= 65535
    &&& forall|i: int| 0 <= i < s.len() ==> token_char(#[trigger] s[i])
}

/// A character that a header value may hold; every byte of a character past
/// ASCII is accepted.
pub open spec fn value_char(c: char) -> bool {
    c == '\t' || ((c as u32) >= 32 && (c as u32) != 127)
}

/// Whether `s` is accepted as a header value.
pub open spec fn valid_header_value(s: Seq<char>) -> bool {
    forall|i: int| 0 <= i < s.len() ==> value_char(#[trigger] s[i])
}

/// Parses a header name. Calls `http::HeaderName::from_bytes` on the UTF-8
/// bytes of `name` and hands back the parsed name's text. Trusted, from the
/// crate's source: a name is accepted exactly when it is 1 to 65535 bytes of
/// token characters, and the parsed name is the ASCII lowercase of the input.
#[verifier::external_body]
pub(crate) fn parse_header_name(name: &str) -> (r: Option<String>)
    ensures
        r is Some <==> valid_header_name(name@),
        r matches Some(l) ==> l@ == ascii_lower(name@),
{
    match reqwest::header::HeaderName::from_bytes(name.as_bytes()) {
        Ok(n) => Some(n.as_str().to_string()),
        Err(_) => None,
    }
}

/// Checks a header value. Calls `http::HeaderValue::from_str`; trusted, from
/// the crate's source, to accept exactly the strings whose every byte is a tab
/// or at least 32 and not 127.
#[verifier::external_body]
pub(crate) fn header_value_accepted(value: &str) -> (r: bool)
    ensures
        r == valid_header_value(value@),
{
    reqwest::header::HeaderValue::from_str(value).is_ok()
}

} // verus!
