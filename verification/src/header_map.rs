//! The header map of a provider runtime: `http::HeaderMap`, seen through the
//! sequence of its entries.

use reqwest::header::{HeaderMap, HeaderName, HeaderValue};
use vstd::prelude::*;
use vstd::utf8::*;

use crate::headers::{RequestHeader, RequestHeaderView, headers_view, valid_header_name, valid_header_value};
use crate::text::ascii_lower;

verus! {

#[verifier::external_type_specification]
#[verifier::external_body]
pub struct ExHeaderValue(HeaderValue);

#[verifier::external_type_specification]
#[verifier::external_body]
#[verifier::reject_recursive_types(T)]
pub struct ExHeaderMap<T>(HeaderMap<T>);

/// The entries of a header map as its `iter` yields them: each name (as its
/// lowercase text) with each of its values (as bytes), entry by entry in the
/// order the names were first inserted.
pub uninterp spec fn header_map_entries(m: HeaderMap<HeaderValue>) -> Seq<(Seq<char>, Seq<u8>)>;

/// No name occurs twice.
pub open spec fn distinct_entry_names(e: Seq<(Seq<char>, Seq<u8>)>) -> bool {
    forall|i: int, j: int| 0 <= i < j < e.len() ==> (#[trigger] e[i]).0 != (#[trigger] e[j]).0
}

/// The entries after setting `name` to `value`: the entry of that name keeps
/// its place and takes the value, else a new entry comes last.
pub open spec fn entry_inserted(e: Seq<(Seq<char>, Seq<u8>)>, name: Seq<char>, value: Seq<u8>) -> Seq<
    (Seq<char>, Seq<u8>),
> {
    if exists|i: int| 0 <= i < e.len() && (#[trigger] e[i]).0 == name {
        let i = choose|i: int| 0 <= i < e.len() && (#[trigger] e[i]).0 == name;
        e.update(i, (name, value))
    } else {
        e.push((name, value))
    }
}

/// The entries as header views.
pub open spec fn entries_view(e: Seq<(Seq<char>, Seq<u8>)>) -> Seq<RequestHeaderView> {
    e.map_values(|p: (Seq<char>, Seq<u8>)| RequestHeaderView { name: p.0, value: p.1 })
}

/// Makes an empty header map. Calls `http::HeaderMap::new`.
#[verifier::external_body]
pub(crate) fn new_header_map() -> (m: HeaderMap<HeaderValue>)
    ensures
        header_map_entries(m) == Seq::<(Seq<char>, Seq<u8>)>::empty(),
{
    HeaderMap::new()
}

/// Sets a header in a map. Calls `http::HeaderMap::insert` with the name
/// parsed by `HeaderName::from_bytes` and the value by
/// `HeaderValue::from_str`, which `requires` makes succeed. From the crate's
/// source: an existing entry of the name has its value replaced in place (and
/// any further values removed), else the entry is pushed after the others.
/// Growing the table fails only when its index would pass 32768 slots: from
/// 32768 slots it doubles once the entries times 5 reach the slots, that is
/// at 6554 entries, or once they fill three quarters of them; below 6554
/// entries neither can happen.
#[verifier::external_body]
pub(crate) fn header_map_insert(m: &mut HeaderMap<HeaderValue>, name: &str, value: &str)
    requires
        valid_header_name(name@),
        valid_header_value(value@),
        distinct_entry_names(header_map_entries(*old(m))),
        header_map_entries(*old(m)).len() < 6554,
    ensures
        header_map_entries(*final(m)) == entry_inserted(
            header_map_entries(*old(m)),
            ascii_lower(name@),
            encode_utf8(value@),
        ),
{
    let n = HeaderName::from_bytes(name.as_bytes()).expect("valid header name");
    let v = HeaderValue::from_str(value).expect("valid header value");
    m.insert(n, v);
}

/// The entries of a map. Calls `http::HeaderMap::iter` and copies each name's
/// text and each value's bytes.
#[verifier::external_body]
pub(crate) fn header_map_list(m: &HeaderMap<HeaderValue>) -> (r: Vec<RequestHeader>)
    ensures
        headers_view(r@) == entries_view(header_map_entries(*m)),
{
    let mut r = Vec::new();
    for (n, v) in m.iter() {
        r.push(RequestHeader { name: n.as_str().to_string(), value: v.as_bytes().to_vec() });
    }
    r
}

/// Inserting keeps the names distinct and adds at most one entry.
pub proof fn lemma_entry_inserted(e: Seq<(Seq<char>, Seq<u8>)>, name: Seq<char>, value: Seq<u8>)
    requires
        distinct_entry_names(e),
    ensures
        distinct_entry_names(entry_inserted(e, name, value)),
        entry_inserted(e, name, value).len() <= e.len() + 1,
        forall|i: int|
            0 <= i < entry_inserted(e, name, value).len() ==> (#[trigger] entry_inserted(
                e,
                name,
                value,
            )[i]).0 == name || exists|j: int| 0 <= j < e.len() && e[j].0 == entry_inserted(
                e,
                name,
                value,
            )[i].0,
{
    let r = entry_inserted(e, name, value);
    if exists|i: int| 0 <= i < e.len() && (#[trigger] e[i]).0 == name {
        let c = choose|i: int| 0 <= i < e.len() && (#[trigger] e[i]).0 == name;
        assert(r == e.update(c, (name, value)));
        assert forall|i: int, j: int| 0 <= i < j < r.len() implies (#[trigger] r[i]).0 != (
        #[trigger] r[j]).0 by {
            if i == c {
                assert(e[j].0 != e[c].0);
            } else if j == c {
                assert(e[i].0 != e[c].0);
            } else {
                assert(e[i].0 != e[j].0);
            }
        }
        assert forall|i: int| 0 <= i < r.len() implies (#[trigger] r[i]).0 == name || exists|j: int|
            0 <= j < e.len() && e[j].0 == r[i].0 by {
            if i != c {
                assert(e[i].0 == r[i].0);
            }
        }
    } else {
        assert(r == e.push((name, value)));
        assert forall|i: int, j: int| 0 <= i < j < r.len() implies (#[trigger] r[i]).0 != (
        #[trigger] r[j]).0 by {
            if j == e.len() {
                assert(r[i] == e[i]);
            } else {
                assert(r[i] == e[i] && r[j] == e[j]);
            }
        }
        assert forall|i: int| 0 <= i < r.len() implies (#[trigger] r[i]).0 == name || exists|j: int|
            0 <= j < e.len() && e[j].0 == r[i].0 by {
            if i < e.len() {
                assert(e[i].0 == r[i].0);
            }
        }
    }
}

} // verus!
