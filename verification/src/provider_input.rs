//! Normalisation and validation of a provider as the user submits it.

use vstd::prelude::*;
use vstd::string::*;

use crate::headers::{
    header_value_accepted, is_reserved_header, parse_header_name, reserved_header, valid_header_name,
    valid_header_value,
};
use crate::models::{HeaderPair, HeaderPairView, ProviderInput, pairs_view};
use crate::text::{ascii_lower, chars_of, lower_chars, strip_end, strip_end_str, trim, trim_str};

verus! {

/// What a URL parser reports of `input`: `None` where it rejects the text,
/// else the scheme and whether a host, a query and a fragment are present.
pub uninterp spec fn parsed_url(input: Seq<char>) -> Option<(Seq<char>, bool, bool, bool)>;

/// The parts of a parsed URL that the validation reads.
pub struct UrlParts {
    pub scheme: String,
    pub has_host: bool,
    pub has_query: bool,
    pub has_fragment: bool,
}

/// Parses a URL. Calls `url::Url::parse` (as `reqwest::Url::parse`) and
/// reads `scheme`, `host_str`, `query` and `fragment` of the result. The
/// parser's rules take many pages; the contract only ties the result to
/// [`parsed_url`] of the input.
#[verifier::external_body]
fn parse_url(input: &str) -> (r: Option<UrlParts>)
    ensures
        match r {
            Some(p) => parsed_url(input@) == Some(
                (p.scheme@, p.has_host, p.has_query, p.has_fragment),
            ),
            None => parsed_url(input@) is None,
        },
{
    match reqwest::Url::parse(input) {
        Ok(u) => Some(
            UrlParts {
                scheme: u.scheme().to_string(),
                has_host: u.host_str().is_some(),
                has_query: u.query().is_some(),
                has_fragment: u.fragment().is_some(),
            },
        ),
        Err(_) => None,
    }
}

/// The base URL as it is stored: trimmed, without trailing slashes.
pub open spec fn normalized_base_url(s: Seq<char>) -> Seq<char> {
    strip_end(trim(s), '/')
}

/// The error for a base URL, if it has one, from what the parser reports.
pub open spec fn base_url_error(parsed: Option<(Seq<char>, bool, bool, bool)>) -> Option<Seq<char>> {
    match parsed {
        None => Some("Base URL 格式无效"@),
        Some((scheme, has_host, has_query, has_fragment)) => if !((scheme == "http"@ || scheme
            == "https"@) && has_host) {
            Some("Base URL 必须是有效的 http 或 https 地址"@)
        } else if has_query || has_fragment {
            Some("Base URL 不能包含查询参数或锚点"@)
        } else {
            None
        },
    }
}

/// The view of what [`parse_url`] hands back.
pub open spec fn url_parts_view(parts: Option<UrlParts>) -> Option<(Seq<char>, bool, bool, bool)> {
    match parts {
        Some(p) => Some((p.scheme@, p.has_host, p.has_query, p.has_fragment)),
        None => None,
    }
}

/// Checks what the URL parser made of a base URL: it must have parsed, be
/// http or https with a host, and carry no query or fragment.
pub fn check_base_url(parts: &Option<UrlParts>) -> (r: Result<(), String>)
    ensures
        match base_url_error(url_parts_view(*parts)) {
            Some(e) => (r matches Err(m) && m@ == e),
            None => r is Ok,
        },
{
    match parts {
        None => Err("Base URL 格式无效".to_owned()),
        Some(u) => {
            let http = chars_of("http");
            let https = chars_of("https");
            let scheme = chars_of(u.scheme.as_str());
            let web = crate::text::chars_equal(&scheme, &http) || crate::text::chars_equal(
                &scheme,
                &https,
            );
            if !(web && u.has_host) {
                Err("Base URL 必须是有效的 http 或 https 地址".to_owned())
            } else if u.has_query || u.has_fragment {
                Err("Base URL 不能包含查询参数或锚点".to_owned())
            } else {
                Ok(())
            }
        },
    }
}

/// Checks a base URL as stored: parses it, then [`check_base_url`].
pub fn validate_base_url(base_url: &str) -> (r: Result<(), String>)
    ensures
        match base_url_error(parsed_url(base_url@)) {
            Some(e) => (r matches Err(m) && m@ == e),
            None => r is Ok,
        },
{
    let parts = parse_url(base_url);
    check_base_url(&parts)
}

/// The extra headers whose trimmed name is not empty, in their order.
pub open spec fn named_pairs(hs: Seq<HeaderPairView>) -> Seq<HeaderPairView>
    decreases hs.len(),
{
    if hs.len() == 0 {
        Seq::empty()
    } else {
        let rest = named_pairs(hs.drop_last());
        if trim(hs.last().name).len() > 0 {
            rest.push(hs.last())
        } else {
            rest
        }
    }
}

/// A pair with its name trimmed.
pub open spec fn trimmed_pair(p: HeaderPairView) -> HeaderPairView {
    HeaderPairView { name: trim(p.name), value: p.value }
}

/// The error of the `i`-th pair of `hs`, given that the pairs before it passed.
pub open spec fn pair_error(hs: Seq<HeaderPairView>, i: int) -> Option<Seq<char>> {
    let name = trim(hs[i].name);
    if !valid_header_name(name) {
        Some("无效请求头名称: "@ + name)
    } else if reserved_header(ascii_lower(name)) {
        Some("不允许自定义请求头: "@ + name)
    } else if exists|j: int| 0 <= j < i && ascii_lower(trim(#[trigger] hs[j].name)) == ascii_lower(name) {
        Some("请求头重复: "@ + name)
    } else if !valid_header_value(hs[i].value) {
        Some("无效请求头值: "@ + name)
    } else {
        None
    }
}

/// The index of the first pair of `hs`, from `i` on, that has an error.
pub open spec fn first_pair_error(hs: Seq<HeaderPairView>, i: int) -> Option<int>
    decreases hs.len() - i,
{
    if i >= hs.len() || i < 0 {
        None
    } else if pair_error(hs, i) is Some {
        Some(i)
    } else {
        first_pair_error(hs, i + 1)
    }
}

/// `hs` with the names of the pairs up to index `last` trimmed.
pub open spec fn trimmed_up_to(hs: Seq<HeaderPairView>, last: int) -> Seq<HeaderPairView> {
    Seq::new(hs.len(), |j: int| if j <= last { trimmed_pair(hs[j]) } else { hs[j] })
}

/// The outcome of validating a provider with these fields.
pub open spec fn input_check(
    name: Seq<char>,
    base_url: Seq<char>,
    headers: Seq<HeaderPairView>,
) -> Result<(), Seq<char>> {
    if trim(name).len() == 0 {
        Err("Provider 名称不能为空"@)
    } else {
        match base_url_error(parsed_url(normalized_base_url(base_url))) {
            Some(e) => Err(e),
            None => {
                let k = named_pairs(headers);
                match first_pair_error(k, 0) {
                    Some(i) => Err(pair_error(k, i).unwrap()),
                    None => Ok(()),
                }
            },
        }
    }
}

/// The extra headers as the validation leaves them: untouched where it stops
/// before reaching them, else the named pairs, trimmed up to the pair that
/// failed (or all of them).
pub open spec fn headers_after_check(
    name: Seq<char>,
    base_url: Seq<char>,
    headers: Seq<HeaderPairView>,
) -> Seq<HeaderPairView> {
    if trim(name).len() == 0 || base_url_error(parsed_url(normalized_base_url(base_url))) is Some {
        headers
    } else {
        let k = named_pairs(headers);
        match first_pair_error(k, 0) {
            Some(i) => trimmed_up_to(k, i),
            None => trimmed_up_to(k, k.len() as int),
        }
    }
}

proof fn lemma_first_error_none_from(hs: Seq<HeaderPairView>, i: int)
    requires
        0 <= i,
        forall|j: int| 0 <= j < i ==> (#[trigger] pair_error(hs, j)) is None,
    ensures
        first_pair_error(hs, 0) == first_pair_error(hs, i),
    decreases i,
{
    if i > 0 {
        lemma_first_error_none_from(hs, i - 1);
        if i - 1 < hs.len() {
            assert(pair_error(hs, i - 1) is None);
        }
    }
}

/// Keeps the extra headers whose trimmed name is not empty.
fn keep_named_pairs(hs: Vec<HeaderPair>) -> (r: Vec<HeaderPair>)
    ensures
        pairs_view(r@) == named_pairs(pairs_view(hs@)),
{
    let mut r: Vec<HeaderPair> = Vec::new();
    let mut i: usize = 0;
    while i < hs.len()
        invariant
            i <= hs@.len(),
            pairs_view(r@) == named_pairs(pairs_view(hs@).take(i as int)),
        decreases hs.len() - i,
    {
        let p = &hs[i];
        let t = trim_str(p.name.as_str());
        let ghost prev = r@;
        proof {
            let t1 = pairs_view(hs@).take(i + 1);
            assert(t1.drop_last() =~= pairs_view(hs@).take(i as int));
            assert(t1.last() == p@);
        }
        if !t.as_str().is_empty() {
            r.push(p.duplicate());
            assert(pairs_view(r@) =~= pairs_view(prev).push(p@));
        }
        i = i + 1;
    }
    assert(pairs_view(hs@).take(hs@.len() as int) =~= pairs_view(hs@));
    r
}

fn message_with(prefix: &str, name: &String) -> (r: String)
    ensures
        r@ == prefix@ + name@,
{
    let mut m = prefix.to_owned();
    m.append(name.as_str());
    m
}

/// Normalises a submitted provider in place and checks it: trims the name,
/// the test model and each extra header's name, trims the base URL and drops
/// its trailing slashes, drops extra headers with a blank name; then requires
/// a name, an http or https base URL with a host and without query or
/// fragment, and extra headers with valid, distinct, non-reserved names and
/// valid values. Returns the first error found.
pub fn validate_provider_input(input: &mut ProviderInput) -> (r: Result<(), String>)
    ensures
        final(input).name@ == trim(old(input).name@),
        final(input).base_url@ == normalized_base_url(old(input).base_url@),
        final(input).test_model@ == trim(old(input).test_model@),
        final(input).id == old(input).id,
        final(input).api_key == old(input).api_key,
        pairs_view(final(input).extra_headers@) == headers_after_check(
            old(input).name@,
            old(input).base_url@,
            pairs_view(old(input).extra_headers@),
        ),
        match r {
            Ok(()) => input_check(
                old(input).name@,
                old(input).base_url@,
                pairs_view(old(input).extra_headers@),
            ) is Ok,
            Err(e) => input_check(
                old(input).name@,
                old(input).base_url@,
                pairs_view(old(input).extra_headers@),
            ) == Err::<(), Seq<char>>(e@),
        },
{
    let ghost old_name = input.name@;
    let ghost old_base = input.base_url@;
    let ghost old_headers = pairs_view(input.extra_headers@);
    input.name = trim_str(input.name.as_str());
    let trimmed_base = trim_str(input.base_url.as_str());
    input.base_url = strip_end_str(trimmed_base.as_str(), '/');
    input.test_model = trim_str(input.test_model.as_str());
    if input.name.as_str().is_empty() {
        return Err("Provider 名称不能为空".to_owned());
    }
    match validate_base_url(input.base_url.as_str()) {
        Err(e) => {
            return Err(e);
        },
        Ok(()) => {},
    }
    let mut taken: Vec<HeaderPair> = Vec::new();
    std::mem::swap(&mut taken, &mut input.extra_headers);
    let kept = keep_named_pairs(taken);
    let ghost k = pairs_view(kept@);
    let mut out: Vec<HeaderPair> = Vec::new();
    let mut names: Vec<String> = Vec::new();
    let mut i: usize = 0;
    while i < kept.len()
        invariant
            input.name@ == trim(old(input).name@),
            input.base_url@ == normalized_base_url(old(input).base_url@),
            input.test_model@ == trim(old(input).test_model@),
            input.id == old(input).id,
            input.api_key == old(input).api_key,
            old_headers == pairs_view(old(input).extra_headers@),
            old_name == old(input).name@,
            old_base == old(input).base_url@,
            trim(old_name).len() > 0,
            base_url_error(parsed_url(normalized_base_url(old_base))) is None,
            k == pairs_view(kept@),
            k == named_pairs(old_headers),
            i <= kept@.len(),
            out@.len() == i,
            forall|j: int| 0 <= j < i ==> (#[trigger] out@[j])@ == trimmed_pair(k[j]),
            names@.len() == i,
            forall|j: int| 0 <= j < i ==> (#[trigger] names@[j])@ == ascii_lower(trim(k[j].name)),
            forall|j: int| 0 <= j < i ==> (#[trigger] pair_error(k, j)) is None,
        decreases kept.len() - i,
    {
        let p = &kept[i];
        let name = trim_str(p.name.as_str());
        assert(name@ == trim(k[i as int].name));
        let mut fail: Option<String> = None;
        match parse_header_name(name.as_str()) {
            None => {
                fail = Some(message_with("无效请求头名称: ", &name));
            },
            Some(lower) => {
                let l = lower_chars(name.as_str());
                let reserved = is_reserved_header(&l);
                if reserved {
                    fail = Some(message_with("不允许自定义请求头: ", &name));
                } else {
                    let mut dup = false;
                    let mut j: usize = 0;
                    while j < names.len()
                        invariant
                            j <= names@.len(),
                            !dup ==> forall|q: int| 0 <= q < j ==> (#[trigger] names@[q])@ != lower@,
                            dup ==> exists|q: int| 0 <= q < names@.len() && (#[trigger] names@[q])@ == lower@,
                        decreases names.len() - j,
                    {
                        if names[j] == lower {
                            dup = true;
                        }
                        j = j + 1;
                    }
                    if dup {
                        let ghost q = choose|q: int| 0 <= q < names@.len() && (#[trigger] names@[q])@ == lower@;
                        assert(ascii_lower(trim(k[q].name)) == ascii_lower(name@));
                        fail = Some(message_with("请求头重复: ", &name));
                    } else if !header_value_accepted(p.value.as_str()) {
                        assert(!exists|q: int| 0 <= q < i && ascii_lower(trim(#[trigger] k[q].name)) == ascii_lower(name@)) by {
                            assert forall|q: int| 0 <= q < i implies ascii_lower(trim(#[trigger] k[q].name)) != ascii_lower(name@) by {
                                assert(names@[q]@ != lower@);
                            }
                        }
                        fail = Some(message_with("无效请求头值: ", &name));
                    } else {
                        assert(!exists|q: int| 0 <= q < i && ascii_lower(trim(#[trigger] k[q].name)) == ascii_lower(name@)) by {
                            assert forall|q: int| 0 <= q < i implies ascii_lower(trim(#[trigger] k[q].name)) != ascii_lower(name@) by {
                                assert(names@[q]@ != lower@);
                            }
                        }
                        names.push(lower);
                    }
                }
            },
        }
        out.push(HeaderPair { name, value: p.value.clone() });
        match fail {
            Some(m) => {
                assert(pair_error(k, i as int) == Some(m@));
                proof {
                    lemma_first_error_none_from(k, i as int);
                }
                let mut rest: usize = i + 1;
                while rest < kept.len()
                    invariant
                        input.name@ == trim(old(input).name@),
                        input.base_url@ == normalized_base_url(old(input).base_url@),
                        input.test_model@ == trim(old(input).test_model@),
                        input.id == old(input).id,
                        input.api_key == old(input).api_key,
                        old_headers == pairs_view(old(input).extra_headers@),
                        old_name == old(input).name@,
                        old_base == old(input).base_url@,
                        trim(old_name).len() > 0,
                        base_url_error(parsed_url(normalized_base_url(old_base))) is None,
                        k == pairs_view(kept@),
                        i < rest <= kept@.len(),
                        out@.len() == rest,
                        forall|j: int| 0 <= j <= i ==> (#[trigger] out@[j])@ == trimmed_pair(k[j]),
                        forall|j: int| i < j < rest ==> (#[trigger] out@[j])@ == k[j],
                    decreases kept.len() - rest,
                {
                    out.push(kept[rest].duplicate());
                    rest = rest + 1;
                }
                input.extra_headers = out;
                assert(pairs_view(input.extra_headers@) =~= trimmed_up_to(k, i as int));
                return Err(m);
            },
            None => {
                assert(pair_error(k, i as int) is None);
            },
        }
        i = i + 1;
    }
    proof {
        lemma_first_error_none_from(k, kept@.len() as int);
    }
    input.extra_headers = out;
    assert(pairs_view(input.extra_headers@) =~= trimmed_up_to(k, k.len() as int));
    Ok(())
}


proof fn lemma_no_pair_error(hs: Seq<HeaderPairView>, i: int)
    requires
        0 <= i,
        first_pair_error(hs, i) is None,
    ensures
        forall|j: int| i <= j < hs.len() ==> (#[trigger] pair_error(hs, j)) is None,
    decreases hs.len() - i,
{
    if i < hs.len() {
        lemma_no_pair_error(hs, i + 1);
    }
}

/// A provider that passes validation is stored with extra headers whose
/// names are valid header names, none reserved (so none can replace the
/// `Authorization`, `Host` or `Content-Length` that the proxy sends, nor a
/// hop-by-hop header), no two equal up to ASCII case, and whose values are
/// valid header values.
pub proof fn accepted_headers_are_safe(
    name: Seq<char>,
    base_url: Seq<char>,
    headers: Seq<HeaderPairView>,
)
    requires
        input_check(name, base_url, headers) is Ok,
    ensures
        ({
            let stored = headers_after_check(name, base_url, headers);
            &&& forall|i: int|
                0 <= i < stored.len() ==> valid_header_name((#[trigger] stored[i]).name)
                    && !reserved_header(ascii_lower(stored[i].name)) && valid_header_value(
                    stored[i].value,
                )
            &&& forall|i: int, j: int|
                0 <= i < j < stored.len() ==> ascii_lower((#[trigger] stored[i]).name)
                    != ascii_lower((#[trigger] stored[j]).name)
        }),
{
    let k = named_pairs(headers);
    lemma_no_pair_error(k, 0);
    let stored = headers_after_check(name, base_url, headers);
    assert(stored == trimmed_up_to(k, k.len() as int));
    assert forall|i: int|
        0 <= i < stored.len() implies valid_header_name((#[trigger] stored[i]).name)
        && !reserved_header(ascii_lower(stored[i].name)) && valid_header_value(stored[i].value) by {
        assert(pair_error(k, i) is None);
    }
    assert forall|i: int, j: int|
        0 <= i < j < stored.len() implies ascii_lower((#[trigger] stored[i]).name) != ascii_lower(
        (#[trigger] stored[j]).name,
    ) by {
        assert(pair_error(k, j) is None);
        assert(stored[i].name == trim(k[i].name));
    }
}

} // verus!
