//! The decisions of the HTTP endpoints, between their reads and their writes.
//!
//! Each endpoint reads a request, consults the database and answers. What it
//! decides from the request and from what the database returned is here; the
//! reading, the database calls and the answering stand around it.

use vstd::prelude::*;
use crate::error::Rejection;
use crate::models::MetaUpdatePayload;
use crate::params::{clamp_usize, clamped, parse_usize_param, query_param, query_value, usize_param_value};
use crate::ranking::{nearest_first, take_nearest};

verus! {

/// `%q%`: the `LIKE` pattern for names that contain `q`.
pub open spec fn like_containing(q: Seq<char>) -> Seq<char> {
    "%"@ + q + "%"@
}

/// `p%`: the `LIKE` pattern for codes that start with `p`.
pub open spec fn like_starting(p: Seq<char>) -> Seq<char> {
    p + "%"@
}

/// The `LIKE` pattern for names that contain `q`.
pub fn search_pattern(q: &str) -> (r: String)
    ensures
        r@ == like_containing(q@),
{
    let mut r = String::from_str("%");
    r.append(q);
    r.append("%");
    r
}

/// The `LIKE` pattern for codes that start with `prefix`.
pub fn prefix_pattern(prefix: &str) -> (r: String)
    ensures
        r@ == like_starting(prefix@),
{
    let mut r = String::from_str(prefix);
    r.append("%");
    r
}

// ---------------------------------------------------------------- /search

/// A name search to run: the searched text and how many results to return.
pub struct SearchPlan {
    pub q: String,
    pub limit: usize,
}

/// The result limit of a search: `limit`, default 10, kept within 1..=100.
pub open spec fn search_limit(query: Seq<char>) -> usize {
    clamped(usize_param_value(query, "limit"@, 10), 1, 100)
}

/// Reads a search request: it needs a non-empty `q`.
pub fn plan_search(query: &str) -> (r: Result<SearchPlan, Rejection>)
    ensures
        r is Ok <==> (query_value(query@, "q"@) matches Some(v) && v.len() > 0),
        r matches Ok(p) ==> query_value(query@, "q"@) == Some(p.q@) && p.limit == search_limit(query@),
        r matches Ok(p) ==> {
            let n = usize_param_value(query@, "limit"@, 10);
            &&& (1 <= n <= 100 ==> p.limit == n)
            &&& (n < 1 ==> p.limit == 1)
            &&& (n > 100 ==> p.limit == 100)
        },
        r matches Err(e) ==> e == Rejection::MissingSearchQuery,
{
    match query_param(query, "q") {
        Some(q) => {
            if q.unicode_len() == 0 {
                return Err(Rejection::MissingSearchQuery);
            }
            let limit = clamp_usize(parse_usize_param(query, "limit", 10), 1, 100);
            Ok(SearchPlan { q, limit })
        },
        None => Err(Rejection::MissingSearchQuery),
    }
}

/// What a search does once the exact-name lookup has answered.
pub enum SearchNext<T> {
    /// Answer with these villages.
    Respond(Vec<T>),
    /// Search all name fields for this pattern, returning at most `limit`.
    Fuzzy { pattern: String, limit: usize },
}

/// After the exact-name lookup: its villages when it found any, otherwise a
/// search of all name fields for names containing `q`.
pub fn after_exact_search<T>(plan: &SearchPlan, exact: Vec<T>) -> (r: SearchNext<T>)
    ensures
        exact@.len() > 0 ==> (r matches SearchNext::Respond(v) && v == exact),
        exact@.len() == 0 ==> (r matches SearchNext::Fuzzy { pattern, limit } && pattern@ == like_containing(plan.q@)
            && limit == plan.limit),
{
    if exact.len() > 0 {
        SearchNext::Respond(exact)
    } else {
        SearchNext::Fuzzy { pattern: search_pattern(plan.q.as_str()), limit: plan.limit }
    }
}

// ---------------------------------------------------------------- /code

/// A code lookup to run.
pub enum CodeRequest {
    /// The village with exactly this code.
    Exact { code: String },
    /// A page of the villages whose code matches `pattern`.
    Prefix { pattern: String, limit: usize, offset: usize },
}

/// The page size of a prefix lookup: `limit`, default 100, kept within 1..=1000.
pub open spec fn prefix_limit(query: Seq<char>) -> usize {
    clamped(usize_param_value(query, "limit"@, 100), 1, 1000)
}

/// Reads a code request: `q` asks for one code (it wins when both are given),
/// `prefix` for a page of codes starting with it; one of them is needed.
pub fn plan_code(query: &str) -> (r: Result<CodeRequest, Rejection>)
    ensures
        query_value(query@, "q"@) matches Some(v) ==> (r matches Ok(CodeRequest::Exact { code }) && code@ == v),
        query_value(query@, "q"@) is None ==> (query_value(query@, "prefix"@) matches Some(p) ==> (r matches Ok(
            CodeRequest::Prefix { pattern, limit, offset },
        ) && pattern@ == like_starting(p) && limit == prefix_limit(query@) && offset == usize_param_value(
            query@,
            "offset"@,
            0,
        ))),
        r matches Ok(CodeRequest::Prefix { limit, .. }) ==> {
            let n = usize_param_value(query@, "limit"@, 100);
            &&& (1 <= n <= 1000 ==> limit == n)
            &&& (n < 1 ==> limit == 1)
            &&& (n > 1000 ==> limit == 1000)
        },
        query_value(query@, "q"@) is None && query_value(query@, "prefix"@) is None ==> r == Err::<
            CodeRequest,
            Rejection,
        >(Rejection::MissingCodeQuery),
{
    if let Some(code) = query_param(query, "q") {
        return Ok(CodeRequest::Exact { code });
    }
    if let Some(prefix) = query_param(query, "prefix") {
        let limit = clamp_usize(parse_usize_param(query, "limit", 100), 1, 1000);
        let offset = parse_usize_param(query, "offset", 0);
        return Ok(CodeRequest::Prefix { pattern: prefix_pattern(prefix.as_str()), limit, offset });
    }
    Err(Rejection::MissingCodeQuery)
}

/// Whether more prefix matches follow a page: the page started at `offset` and
/// held `returned` rows, and `total` codes match in all (read as a `usize`).
pub fn has_more(offset: usize, returned: usize, total: i64) -> (r: bool)
    requires
        offset + returned <= usize::MAX,
    ensures
        r == (offset + returned < total as usize),
{
    (offset + returned) < total as usize
}

/// Page sizes: a search returns the asked-for `limit` (default 10) when it lies
/// in 1..=100, else the nearer bound; a prefix page likewise within 1..=1000
/// (default 100).
pub proof fn lemma_page_sizes(query: Seq<char>)
    ensures
        ({
            let n = usize_param_value(query, "limit"@, 10);
            &&& (1 <= n <= 100 ==> search_limit(query) == n)
            &&& (n < 1 ==> search_limit(query) == 1)
            &&& (n > 100 ==> search_limit(query) == 100)
        }),
        ({
            let n = usize_param_value(query, "limit"@, 100);
            &&& (1 <= n <= 1000 ==> prefix_limit(query) == n)
            &&& (n < 1 ==> prefix_limit(query) == 1)
            &&& (n > 1000 ==> prefix_limit(query) == 1000)
        }),
{
}

// ---------------------------------------------------------------- /nearest and /locate

/// The number of nearest villages asked for: `limit`, default 5, kept within
/// 1..=20.
pub fn nearest_limit(query: &str) -> (r: usize)
    ensures
        r == clamped(usize_param_value(query@, "limit"@, 5), 1, 20),
        1 <= usize_param_value(query@, "limit"@, 5) <= 20 ==> r == usize_param_value(query@, "limit"@, 5),
        usize_param_value(query@, "limit"@, 5) < 1 ==> r == 1,
        usize_param_value(query@, "limit"@, 5) > 20 ==> r == 20,
{
    clamp_usize(parse_usize_param(query, "limit", 5), 1, 20)
}

/// The candidate search widens its bounding box round by round until a round
/// finds villages.
#[derive(Clone, Copy, Debug, PartialEq, Eq, Structural)]
pub enum WideningStep {
    /// Query the box of this round.
    Query(usize),
    /// The round just queried found villages: they are the candidates.
    Return,
    /// No round found any village: there are no candidates.
    Exhausted,
}

/// The first step of a candidate search over `rounds` box sizes.
pub fn start_widening(rounds: usize) -> (r: WideningStep)
    ensures
        rounds > 0 ==> r == WideningStep::Query(0),
        rounds == 0 ==> r == WideningStep::Exhausted,
{
    if rounds > 0 {
        WideningStep::Query(0)
    } else {
        WideningStep::Exhausted
    }
}

/// The step after round `round` found `found` villages: stop on the first round
/// that finds any, otherwise try the next, larger box while there is one.
pub fn after_round(round: usize, found: usize, rounds: usize) -> (r: WideningStep)
    requires
        round < rounds,
    ensures
        found > 0 ==> r == WideningStep::Return,
        found == 0 && round + 1 < rounds ==> r == WideningStep::Query((round + 1) as usize),
        found == 0 && round + 1 >= rounds ==> r == WideningStep::Exhausted,
{
    if found > 0 {
        WideningStep::Return
    } else if round + 1 < rounds {
        WideningStep::Query(round + 1)
    } else {
        WideningStep::Exhausted
    }
}

// ---------------------------------------------------------------- /

/// How many nearest villages the index page lists.
pub const INDEX_NEAREST: usize = 5;

/// Where the index page's location came from.
#[derive(Clone, Copy, Debug, PartialEq, Eq, Structural)]
pub enum LocationSource {
    /// The `lat` and `lon` query parameters (a device's position).
    Gps,
    /// The geolocation of the client's IP address.
    Ip,
}

impl LocationSource {
    /// The name under which the source is reported: `gps` or `ip`.
    pub fn label(&self) -> (s: String)
        ensures
            *self == LocationSource::Gps ==> s@ == "gps"@,
            *self == LocationSource::Ip ==> s@ == "ip"@,
    {
        match self {
            LocationSource::Gps => String::from_str("gps"),
            LocationSource::Ip => String::from_str("ip"),
        }
    }
}

/// The location of the index page: the query's position when it gave a usable
/// one, else the IP geolocation when there is one, else none.
pub fn choose_location<C: Copy>(gps: Option<(C, C)>, ip: Option<(C, C)>) -> (r: Option<(C, C, LocationSource)>)
    ensures
        gps matches Some(g) ==> r == Some((g.0, g.1, LocationSource::Gps)),
        gps is None ==> (ip matches Some(i) ==> r == Some((i.0, i.1, LocationSource::Ip))),
        gps is None && ip is None ==> r is None,
{
    match gps {
        Some((lat, lon)) => Some((lat, lon, LocationSource::Gps)),
        None => match ip {
            Some((lat, lon)) => Some((lat, lon, LocationSource::Ip)),
            None => None,
        },
    }
}

/// The nearest villages of the index page: none when there are no candidates,
/// otherwise the `INDEX_NEAREST` nearest, nearest first (`keys[i]` is the
/// distance key of `items[i]`).
pub fn index_nearest<T>(items: Vec<T>, keys: &Vec<u64>) -> (r: Option<Vec<T>>)
    requires
        items@.len() == keys@.len(),
    ensures
        r is None <==> keys@.len() == 0,
        r matches Some(v) ==> exists|order: Seq<usize>|
            nearest_first(keys@, INDEX_NEAREST as nat, order) && v@ == order.map_values(
                |i: usize| items@[i as int],
            ),
{
    if keys.len() == 0 {
        None
    } else {
        Some(take_nearest(items, keys, INDEX_NEAREST))
    }
}

// ---------------------------------------------------------------- /update and /update/meta

/// The most villages one update may carry.
pub const MAX_UPDATE_VILLAGES: usize = 500;

/// Checks the size of a village update: at least one, at most
/// `MAX_UPDATE_VILLAGES`; an accepted update reports its size as the count.
pub fn validate_update(count: usize) -> (r: Result<usize, Rejection>)
    ensures
        count == 0 ==> r == Err::<usize, Rejection>(Rejection::NoVillages),
        count > MAX_UPDATE_VILLAGES ==> r == Err::<usize, Rejection>(Rejection::TooManyVillages),
        0 < count <= MAX_UPDATE_VILLAGES ==> r == Ok::<usize, Rejection>(count),
{
    if count == 0 {
        Err(Rejection::NoVillages)
    } else if count > MAX_UPDATE_VILLAGES {
        Err(Rejection::TooManyVillages)
    } else {
        Ok(count)
    }
}

/// Checks a metadata update: it needs at least one key, and any number is
/// accepted; an accepted update reports its number of keys as the count.
pub fn validate_meta_update(payload: &MetaUpdatePayload) -> (r: Result<usize, Rejection>)
    ensures
        r is Err <==> payload.meta@.is_empty(),
        r matches Err(e) ==> e == Rejection::NoMetadata,
        r matches Ok(n) ==> n == payload.meta.len(),
{
    if payload.meta.is_empty() {
        Err(Rejection::NoMetadata)
    } else {
        Ok(payload.meta.len())
    }
}

} // verus!
