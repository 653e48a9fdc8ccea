//! The decisions of the proxy endpoints: which requests go upstream, what a
//! refused one is answered, the declared body size, and the upstream URLs.

use vstd::prelude::*;
use vstd::string::*;

use crate::headers::{RequestHeader, find_header, headers_view, is_authorized, authorized, visible_ascii};
use crate::runtime::ProviderRuntime;
use crate::text::{chars_equal_str, lower_chars, strip_end};

verus! {

/// How the proxy answers a request it does not forward.
pub struct Refusal {
    /// The HTTP status of the answer.
    pub status: u16,
    /// The error recorded in the request log.
    pub log_message: String,
    /// The `error.message` of the JSON answer.
    pub client_message: String,
    /// The `error.type` of the JSON answer.
    pub error_type: String,
}

/// Whether `r` is the refusal of a request without the local token.
pub open spec fn is_unauthorized_refusal(r: Refusal) -> bool {
    &&& r.status == 401
    &&& r.log_message@ == "本地代理认证失败"@
    &&& r.client_message@ == "EasyAPI local proxy authentication failed"@
    &&& r.error_type@ == "authentication_error"@
}

/// Whether `r` is the refusal of a request while no provider is active.
pub open spec fn is_no_provider_refusal(r: Refusal) -> bool {
    &&& r.status == 503
    &&& r.log_message@ == "未选择 Provider"@
    &&& r.client_message@ == "No active provider is configured in EasyAPI"@
    &&& r.error_type@ == "easyapi_configuration_error"@
}

/// Decides whether a request to a proxied endpoint goes upstream: it must
/// carry the local token, then a provider must be active.
pub fn check_request(headers: &Vec<RequestHeader>, local_token: &str, has_provider: bool) -> (r: Result<
    (),
    Refusal,
>)
    ensures
        !is_authorized(headers_view(headers@), local_token.spec_bytes()) ==> (r matches Err(x)
            && is_unauthorized_refusal(x)),
        is_authorized(headers_view(headers@), local_token.spec_bytes()) && !has_provider ==> (
        r matches Err(x) && is_no_provider_refusal(x)),
        r is Ok <==> (is_authorized(headers_view(headers@), local_token.spec_bytes())
            && has_provider),
{
    if !authorized(headers, local_token) {
        return Err(
            Refusal {
                status: 401,
                log_message: "本地代理认证失败".to_owned(),
                client_message: "EasyAPI local proxy authentication failed".to_owned(),
                error_type: "authentication_error".to_owned(),
            },
        );
    }
    if !has_provider {
        return Err(
            Refusal {
                status: 503,
                log_message: "未选择 Provider".to_owned(),
                client_message: "No active provider is configured in EasyAPI".to_owned(),
                error_type: "easyapi_configuration_error".to_owned(),
            },
        );
    }
    Ok(())
}

/// The answer to a request whose upstream call failed with `message`.
pub fn upstream_failure(message: String) -> (r: Refusal)
    ensures
        r.status == 502,
        r.log_message@ == message@,
        r.client_message@ == message@,
        r.error_type@ == "easyapi_upstream_error"@,
{
    Refusal {
        status: 502,
        log_message: message.clone(),
        client_message: message,
        error_type: "easyapi_upstream_error".to_owned(),
    }
}

/// Whether a byte is an ASCII digit.
pub open spec fn is_digit(b: u8) -> bool {
    48 <= b <= 57
}

/// The number that a string of ASCII digits spells.
pub open spec fn digits_value(d: Seq<u8>) -> nat
    decreases d.len(),
{
    if d.len() == 0 {
        0
    } else {
        digits_value(d.drop_last()) * 10 + (d.last() - 48) as nat
    }
}

/// What `u64::from_str` gives for these bytes: an optional `+`, then one or
/// more digits whose value fits in a `u64`.
pub open spec fn parse_u64(b: Seq<u8>) -> Option<u64> {
    let d = unsigned_digits(b);
    if d.len() > 0 && all_digits(d) && digits_value(d) <= u64::MAX {
        Some(digits_value(d) as u64)
    } else {
        None
    }
}

/// The bytes after an optional leading `+`.
pub open spec fn unsigned_digits(b: Seq<u8>) -> Seq<u8> {
    if b.len() > 0 && b[0] == 43 {
        b.drop_first()
    } else {
        b
    }
}

/// Whether every byte is an ASCII digit.
pub open spec fn all_digits(d: Seq<u8>) -> bool {
    forall|i: int| 0 <= i < d.len() ==> is_digit(#[trigger] d[i])
}

/// The body size that a request declares: its first `Content-Length` header,
/// read as text and parsed as a `u64`; `None` where it is missing or does not
/// parse.
pub open spec fn declared_length(hs: Seq<crate::headers::RequestHeaderView>) -> Option<u64> {
    match find_header(hs, "content-length"@) {
        Some(v) => if forall|i: int| 0 <= i < v.len() ==> visible_ascii(#[trigger] v[i]) {
            parse_u64(v)
        } else {
            None
        },
        None => None,
    }
}

proof fn lemma_digits_value_grows(d: Seq<u8>, i: int)
    requires
        0 <= i <= d.len(),
    ensures
        digits_value(d.take(i)) <= digits_value(d),
    decreases d.len() - i,
{
    if i < d.len() {
        lemma_digits_value_grows(d, i + 1);
        assert(d.take(i + 1).drop_last() =~= d.take(i));
    } else {
        assert(d.take(i) =~= d);
    }
}

/// Parses bytes as `u64::from_str` does.
#[verifier::loop_isolation(false)]
pub fn parse_decimal_u64(b: &Vec<u8>) -> (r: Option<u64>)
    ensures
        r == parse_u64(b@),
{
    let start: usize = if b.len() > 0 && b[0] == 43 {
        1
    } else {
        0
    };
    let ghost d = unsigned_digits(b@);
    assert(d =~= b@.skip(start as int));
    if start == b.len() {
        return None;
    }
    let mut value: u64 = 0;
    let mut i: usize = start;
    assert(d.take(0) =~= Seq::<u8>::empty());
    while i < b.len()
        invariant
            start <= i <= b@.len(),
            d =~= b@.skip(start as int),
            forall|q: int| 0 <= q < i - start ==> is_digit(#[trigger] d[q]),
            value == digits_value(d.take(i - start)),
        decreases b.len() - i,
    {
        let c = b[i];
        if !(48 <= c && c <= 57) {
            proof {
                let q = (i - start) as int;
                assert(d[q] == c);
                assert(!is_digit(d[q]));
                assert(!all_digits(d));
            }
            return None;
        }
        assert(d.take(i - start + 1).drop_last() =~= d.take(i - start));
        assert(d.take(i - start + 1).last() == c);
        let digit = (c - 48) as u64;
        if value > (18446744073709551615u64 - digit) / 10 {
            assert(digits_value(d.take(i - start + 1)) > u64::MAX) by (nonlinear_arith)
                requires
                    value > (18446744073709551615u64 - digit) / 10,
                    digits_value(d.take(i - start + 1)) == value * 10 + digit,
            ;
            proof {
                lemma_digits_value_grows(d, i - start + 1);
            }
            return None;
        }
        assert(value * 10 + digit <= u64::MAX) by (nonlinear_arith)
            requires
                value <= (18446744073709551615u64 - digit) / 10,
                digit <= 9,
        ;
        value = value * 10 + digit;
        i = i + 1;
    }
    assert(d.take(d.len() as int) =~= d);
    Some(value)
}

/// The body size that a request declares in its `Content-Length` header.
#[verifier::loop_isolation(false)]
pub fn request_body_length(headers: &Vec<RequestHeader>) -> (r: Option<u64>)
    ensures
        r == declared_length(headers_view(headers@)),
{
    let ghost hv = headers_view(headers@);
    assert(hv.skip(0) =~= hv);
    let mut i: usize = 0;
    while i < headers.len()
        invariant
            i <= headers@.len(),
            hv == headers_view(headers@),
            find_header(hv, "content-length"@) == find_header(hv.skip(i as int), "content-length"@),
        decreases headers.len() - i,
    {
        let l = lower_chars(headers[i].name.as_str());
        assert(hv.skip(i as int).drop_first() =~= hv.skip(i + 1));
        if chars_equal_str(&l, "content-length") {
            let v = &headers[i].value;
            let mut j: usize = 0;
            while j < v.len()
                invariant
                    j <= v@.len(),
                    forall|k: int| 0 <= k < j ==> visible_ascii(#[trigger] v@[k]),
                decreases v.len() - j,
            {
                let c = v[j];
                if !((32 <= c && c < 127) || c == 9) {
                    return None;
                }
                j = j + 1;
            }
            return parse_decimal_u64(v);
        }
        i = i + 1;
    }
    None
}

/// The upstream model list URL for a client request with query `query`:
/// the provider's model list endpoint, then `?` and the query if there is one.
pub fn models_request_url(runtime: &ProviderRuntime, query: Option<&str>) -> (r: String)
    ensures
        r@ == strip_end(runtime.record().base_url@, '/') + "/models"@ + match query {
            Some(q) => "?"@ + q@,
            None => Seq::empty(),
        },
{
    let mut url = runtime.models_url();
    match query {
        Some(q) => {
            url.append("?");
            url.append(q);
        },
        None => {},
    }
    url
}

} // verus!
