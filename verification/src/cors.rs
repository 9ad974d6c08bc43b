//! The cross-origin headers that every response carries, and the caching header
//! of the cacheable ones.

use vstd::prelude::*;
use crate::params::pairs_view;
use crate::text::{append_decimal, decimal};

verus! {

/// The cross-origin headers, in the order in which they are set.
pub open spec fn cors_header_text() -> Seq<(Seq<char>, Seq<char>)> {
    seq![
        ("Access-Control-Allow-Origin"@, "*"@),
        ("Access-Control-Allow-Methods"@, "GET, PUT, OPTIONS"@),
        ("Access-Control-Allow-Headers"@, "*"@),
    ]
}

/// The `Cache-Control` value for a response that may be cached for `max_age`
/// seconds.
pub open spec fn cache_control_text(max_age: u32) -> Seq<char> {
    "public, max-age="@ + decimal(max_age as nat)
}

/// The headers of a cacheable response: the cross-origin headers, then
/// `Cache-Control`.
pub open spec fn cors_cache_header_text(max_age: u32) -> Seq<(Seq<char>, Seq<char>)> {
    cors_header_text().push(("Cache-Control"@, cache_control_text(max_age)))
}

/// `response` kept as it is and paired with `headers`, the headers to set on it;
/// an error passes through.
pub open spec fn paired_with_headers<T, E>(
    response: Result<T, E>,
    r: Result<(T, Vec<(String, String)>), E>,
    headers: Seq<(Seq<char>, Seq<char>)>,
) -> bool {
    match (response, r) {
        (Ok(t), Ok((t2, h))) => t2 == t && pairs_view(h@) == headers,
        (Err(e), Err(e2)) => e2 == e,
        _ => false,
    }
}

fn header(name: &str, value: &str) -> (h: (String, String))
    ensures
        h.0@ == name@,
        h.1@ == value@,
{
    (String::from_str(name), String::from_str(value))
}

/// The cross-origin headers.
pub fn cors_headers() -> (h: Vec<(String, String)>)
    ensures
        pairs_view(h@) == cors_header_text(),
{
    let mut h: Vec<(String, String)> = Vec::new();
    h.push(header("Access-Control-Allow-Origin", "*"));
    h.push(header("Access-Control-Allow-Methods", "GET, PUT, OPTIONS"));
    h.push(header("Access-Control-Allow-Headers", "*"));
    assert(pairs_view(h@) =~= cors_header_text());
    h
}

/// The `Cache-Control` value `public, max-age=<max_age>`.
pub fn cache_control(max_age: u32) -> (v: String)
    ensures
        v@ == cache_control_text(max_age),
{
    let mut v = String::from_str("public, max-age=");
    append_decimal(&mut v, max_age as u64);
    v
}

/// Pairs a response with the cross-origin headers to set on it (besides the
/// headers it already has, such as its content type); an error passes through
/// unchanged.
pub fn with_cors<T, E>(response: Result<T, E>) -> (r: Result<(T, Vec<(String, String)>), E>)
    ensures
        paired_with_headers(response, r, cors_header_text()),
{
    match response {
        Ok(t) => Ok((t, cors_headers())),
        Err(e) => Err(e),
    }
}

/// Pairs a response with the cross-origin headers and `Cache-Control:
/// public, max-age=<max_age>` to set on it (besides the headers it already
/// has); an error passes through unchanged.
pub fn with_cors_and_cache<T, E>(response: Result<T, E>, max_age: u32) -> (r: Result<(T, Vec<(String, String)>), E>)
    ensures
        paired_with_headers(response, r, cors_cache_header_text(max_age)),
{
    match response {
        Ok(t) => {
            let mut h = cors_headers();
            let ghost before = h@;
            h.push((String::from_str("Cache-Control"), cache_control(max_age)));
            assert(pairs_view(h@) =~= pairs_view(before).push(("Cache-Control"@, cache_control_text(max_age))));
            Ok((t, h))
        },
        Err(e) => Err(e),
    }
}

/// A cacheable response carries exactly the headers of any other response,
/// followed by one `Cache-Control` header.
pub proof fn lemma_cache_headers_extend_cors(max_age: u32)
    ensures
        cors_cache_header_text(max_age).len() == cors_header_text().len() + 1,
        cors_cache_header_text(max_age).take(cors_header_text().len() as int) == cors_header_text(),
        cors_cache_header_text(max_age).last() == ("Cache-Control"@, cache_control_text(max_age)),
{
    assert(cors_cache_header_text(max_age).take(3) =~= cors_header_text());
}

} // verus!
