//! Reading parameters out of the query component of a request URL.
//!
//! The query component is the text after `?` (empty when the URL has none). It is
//! split into name/value pairs by the `application/x-www-form-urlencoded` rules of
//! the `form_urlencoded` crate; the first pair with the requested name wins.

use vstd::prelude::*;
use crate::text::{parse_usize, usize_text};

verus! {

/// The name/value pairs that `form_urlencoded::parse` reads from a query
/// component, percent-decoded, in the order in which they occur.
pub uninterp spec fn urlencoded_pairs(query: Seq<char>) -> Seq<(Seq<char>, Seq<char>)>;

/// The pairs of a vector of owned strings, by their text.
pub open spec fn pairs_view(v: Seq<(String, String)>) -> Seq<(Seq<char>, Seq<char>)> {
    v.map_values(|p: (String, String)| (p.0@, p.1@))
}

/// An optional string, by its text.
pub open spec fn opt_text(o: Option<String>) -> Option<Seq<char>> {
    match o {
        Some(s) => Some(s@),
        None => None,
    }
}

/// The value of the first pair whose name is `key`, if there is one.
pub open spec fn first_value(pairs: Seq<(Seq<char>, Seq<char>)>, key: Seq<char>) -> Option<Seq<char>>
    decreases pairs.len(),
{
    if pairs.len() == 0 {
        None
    } else if pairs[0].0 == key {
        Some(pairs[0].1)
    } else {
        first_value(pairs.drop_first(), key)
    }
}

/// The value that parameter `key` has in the query component `query`.
pub open spec fn query_value(query: Seq<char>, key: Seq<char>) -> Option<Seq<char>> {
    first_value(urlencoded_pairs(query), key)
}

/// What a `usize` parameter reads as: its parsed value, or `default` when it is
/// missing or is not an unsigned decimal number that fits.
pub open spec fn usize_param_value(query: Seq<char>, key: Seq<char>, default: usize) -> usize {
    match query_value(query, key) {
        Some(v) => match usize_text(v) {
            Some(n) => n,
            None => default,
        },
        None => default,
    }
}

/// The `&`-separated pieces of `s`, empty pieces left out, the piece being read
/// so far being `cur`.
pub open spec fn segments_from(s: Seq<char>, cur: Seq<char>) -> Seq<Seq<char>>
    decreases s.len(),
{
    if s.len() == 0 {
        if cur.len() > 0 {
            seq![cur]
        } else {
            Seq::empty()
        }
    } else if s[0] == '&' {
        (if cur.len() > 0 {
            seq![cur]
        } else {
            Seq::<Seq<char>>::empty()
        }) + segments_from(s.drop_first(), Seq::empty())
    } else {
        segments_from(s.drop_first(), cur.push(s[0]))
    }
}

/// The non-empty `&`-separated pieces of a query, in order.
pub open spec fn segments(q: Seq<char>) -> Seq<Seq<char>> {
    segments_from(q, Seq::empty())
}

/// A piece split at its first `=` into name and value (the value is empty when
/// there is no `=`).
pub open spec fn name_value(seg: Seq<char>) -> (Seq<char>, Seq<char>)
    decreases seg.len(),
{
    if seg.len() == 0 {
        (Seq::empty(), Seq::empty())
    } else if seg[0] == '=' {
        (Seq::empty(), seg.drop_first())
    } else {
        let nv = name_value(seg.drop_first());
        (seq![seg[0]] + nv.0, nv.1)
    }
}

/// Whether `c` is a hexadecimal digit (either case).
pub open spec fn is_hex(c: char) -> bool {
    ('0' <= c && c <= '9') || ('a' <= c && c <= 'f') || ('A' <= c && c <= 'F')
}

/// The value of a hexadecimal digit.
pub open spec fn hex_value(c: char) -> int {
    if '0' <= c && c <= '9' {
        c as int - 48
    } else if 'a' <= c && c <= 'f' {
        c as int - 87
    } else {
        c as int - 55
    }
}

/// A name or value decoded: every `+` becomes a space, every `%XX` (two hex
/// digits) the byte it encodes, any other `%` stays. Defined where every `%XX`
/// encodes an ASCII byte; `None` otherwise (those bytes go through UTF-8
/// decoding, which this does not describe).
pub open spec fn form_decode(s: Seq<char>) -> Option<Seq<char>>
    decreases s.len(),
{
    if s.len() == 0 {
        Some(Seq::empty())
    } else if s[0] == '%' && s.len() >= 3 && is_hex(s[1]) && is_hex(s[2]) {
        let b = hex_value(s[1]) * 16 + hex_value(s[2]);
        if b < 128 {
            match form_decode(s.skip(3)) {
                Some(rest) => Some(seq![b as char] + rest),
                None => None,
            }
        } else {
            None
        }
    } else {
        let c = if s[0] == '+' {
            ' '
        } else {
            s[0]
        };
        match form_decode(s.drop_first()) {
            Some(rest) => Some(seq![c] + rest),
            None => None,
        }
    }
}

/// The decoded name/value pairs of a list of pieces, when all of them decode.
pub open spec fn decode_segments(segs: Seq<Seq<char>>) -> Option<Seq<(Seq<char>, Seq<char>)>>
    decreases segs.len(),
{
    if segs.len() == 0 {
        Some(Seq::empty())
    } else {
        let nv = name_value(segs[0]);
        match (form_decode(nv.0), form_decode(nv.1), decode_segments(segs.drop_first())) {
            (Some(n), Some(v), Some(rest)) => Some(seq![(n, v)] + rest),
            _ => None,
        }
    }
}

/// The pairs of `application/x-www-form-urlencoded` text whose percent escapes
/// all encode ASCII bytes: the text split at `&` (empty pieces skipped), each
/// piece split at its first `=`, name and value decoded.
pub open spec fn form_pairs(q: Seq<char>) -> Option<Seq<(Seq<char>, Seq<char>)>> {
    decode_segments(segments(q))
}

/// `s` with every `+` replaced by a space.
pub open spec fn plus_to_space(s: Seq<char>) -> Seq<char> {
    s.map_values(|c: char| if c == '+' { ' ' } else { c })
}

/// A name or value that decodes without escapes: no `&` or `%` in it.
pub open spec fn plain_text(s: Seq<char>) -> bool {
    !s.contains('&') && !s.contains('%')
}

/// A parameter name written as itself: non-empty, no `&`, `=`, `%` or `+`.
pub open spec fn plain_name(k: Seq<char>) -> bool {
    k.len() > 0 && plain_text(k) && !k.contains('=') && !k.contains('+')
}

/// `form_urlencoded::parse`: splits a query component into percent-decoded
/// name/value pairs. The result is the named function `urlencoded_pairs` of the
/// query text; where every percent escape encodes an ASCII byte it is
/// `form_pairs` (split at `&`, skipping empty pieces, then at the first `=`;
/// `+` to space, then `%XX` to its byte; text that is valid UTF-8 stays as it
/// is). Escapes of other bytes are left to the name.
#[verifier::external_body]
fn decode_query(query: &str) -> (pairs: Vec<(String, String)>)
    ensures
        pairs_view(pairs@) == urlencoded_pairs(query@),
        form_pairs(query@) matches Some(p) ==> pairs_view(pairs@) == p,
{
    worker::url::form_urlencoded::parse(query.as_bytes()).into_owned().collect()
}

/// The value of the first pair named `key` among already decoded `pairs`.
pub fn lookup_pair(pairs: &Vec<(String, String)>, key: &str) -> (r: Option<String>)
    ensures
        opt_text(r) == first_value(pairs_view(pairs@), key@),
{
    let ghost all = pairs_view(pairs@);
    let key_s = String::from_str(key);
    let mut i: usize = 0;
    assert(all.subrange(0, all.len() as int) =~= all);
    while i < pairs.len()
        invariant
            i <= pairs.len(),
            all == pairs_view(pairs@),
            key_s@ == key@,
            first_value(all, key@) == first_value(all.subrange(i as int, all.len() as int), key@),
        decreases pairs.len() - i,
    {
        let ghost rest = all.subrange(i as int, all.len() as int);
        assert(rest[0] == all[i as int]);
        if pairs[i].0 == key_s {
            return Some(pairs[i].1.clone());
        }
        assert(rest.drop_first() =~= all.subrange(i + 1, all.len() as int));
        i = i + 1;
    }
    assert(all.subrange(i as int, all.len() as int).len() == 0);
    None
}

/// The value of query parameter `key`: that of the first pair named `key` in the
/// query component `query`, or `None` when no pair has that name.
pub fn query_param(query: &str, key: &str) -> (r: Option<String>)
    ensures
        opt_text(r) == query_value(query@, key@),
        form_pairs(query@) matches Some(p) ==> opt_text(r) == first_value(p, key@),
{
    let pairs = decode_query(query);
    lookup_pair(&pairs, key)
}

/// Query parameter `key` read as a `usize`, or `default` when it is missing or
/// is not an unsigned decimal number that fits.
pub fn parse_usize_param(query: &str, key: &str, default: usize) -> (r: usize)
    ensures
        r == usize_param_value(query@, key@, default),
        form_pairs(query@) matches Some(p) ==> r == match first_value(p, key@) {
            Some(v) => match usize_text(v) {
                Some(n) => n,
                None => default,
            },
            None => default,
        },
{
    match query_param(query, key) {
        Some(v) => match parse_usize(v.as_str()) {
            Some(n) => n,
            None => default,
        },
        None => default,
    }
}

/// `v` brought into `lo..=hi`, as `Ord::clamp` does.
pub open spec fn clamped(v: usize, lo: usize, hi: usize) -> usize {
    if v < lo {
        lo
    } else if v > hi {
        hi
    } else {
        v
    }
}

/// Brings `v` into `lo..=hi` (`Ord::clamp`, which panics when `lo > hi`).
pub fn clamp_usize(v: usize, lo: usize, hi: usize) -> (r: usize)
    requires
        lo <= hi,
    ensures
        r == clamped(v, lo, hi),
        lo <= r <= hi,
        lo <= v <= hi ==> r == v,
        v < lo ==> r == lo,
        v > hi ==> r == hi,
{
    if v < lo {
        lo
    } else if v > hi {
        hi
    } else {
        v
    }
}

/// A piece with no `&` in it stays whole.
proof fn lemma_segments_no_amp(s: Seq<char>, cur: Seq<char>)
    requires
        !s.contains('&'),
    ensures
        segments_from(s, cur) == (if (cur + s).len() > 0 {
            seq![cur + s]
        } else {
            Seq::<Seq<char>>::empty()
        }),
    decreases s.len(),
{
    if s.len() == 0 {
        assert(cur + s =~= cur);
    } else {
        assert(s[0] != '&') by {
            assert(s.contains(s[0]));
        }
        assert(!s.drop_first().contains('&')) by {
            if s.drop_first().contains('&') {
                let i = choose|i: int| 0 <= i < s.drop_first().len() && s.drop_first()[i] == '&';
                assert(s[i + 1] == '&');
            }
        }
        lemma_segments_no_amp(s.drop_first(), cur.push(s[0]));
        assert(cur.push(s[0]) + s.drop_first() =~= cur + s);
    }
}

/// The text before the first `&` is the first piece; the rest is split on its
/// own.
proof fn lemma_segments_amp(a: Seq<char>, b: Seq<char>, cur: Seq<char>)
    requires
        !a.contains('&'),
    ensures
        segments_from(a + seq!['&'] + b, cur) == (if (cur + a).len() > 0 {
            seq![cur + a]
        } else {
            Seq::<Seq<char>>::empty()
        }) + segments_from(b, Seq::empty()),
    decreases a.len(),
{
    let s = a + seq!['&'] + b;
    if a.len() == 0 {
        assert(s[0] == '&');
        assert(s.drop_first() =~= b);
        assert(cur + a =~= cur);
    } else {
        assert(a[0] != '&') by {
            assert(a.contains(a[0]));
        }
        assert(!a.drop_first().contains('&')) by {
            if a.drop_first().contains('&') {
                let i = choose|i: int| 0 <= i < a.drop_first().len() && a.drop_first()[i] == '&';
                assert(a[i + 1] == '&');
            }
        }
        assert(s[0] == a[0]);
        assert(s.drop_first() =~= a.drop_first() + seq!['&'] + b);
        lemma_segments_amp(a.drop_first(), b, cur.push(a[0]));
        assert(cur.push(a[0]) + a.drop_first() =~= cur + a);
    }
}

/// A piece `k=v`, with no `=` in `k`, has name `k` and value `v`.
proof fn lemma_name_value(k: Seq<char>, v: Seq<char>)
    requires
        !k.contains('='),
    ensures
        name_value(k + seq!['='] + v) == (k, v),
    decreases k.len(),
{
    let seg = k + seq!['='] + v;
    if k.len() == 0 {
        assert(seg[0] == '=');
        assert(seg.drop_first() =~= v);
        assert(k =~= Seq::<char>::empty());
    } else {
        assert(k[0] != '=') by {
            assert(k.contains(k[0]));
        }
        assert(!k.drop_first().contains('=')) by {
            if k.drop_first().contains('=') {
                let i = choose|i: int| 0 <= i < k.drop_first().len() && k.drop_first()[i] == '=';
                assert(k[i + 1] == '=');
            }
        }
        assert(seg[0] == k[0]);
        assert(seg.drop_first() =~= k.drop_first() + seq!['='] + v);
        lemma_name_value(k.drop_first(), v);
        assert(seq![k[0]] + k.drop_first() =~= k);
    }
}

/// Text without `%` decodes to itself with every `+` made a space.
pub proof fn lemma_plus_is_space(s: Seq<char>)
    requires
        !s.contains('%'),
    ensures
        form_decode(s) == Some(plus_to_space(s)),
    decreases s.len(),
{
    if s.len() == 0 {
        assert(plus_to_space(s) =~= Seq::<char>::empty());
    } else {
        assert(s[0] != '%') by {
            assert(s.contains(s[0]));
        }
        assert(!s.drop_first().contains('%')) by {
            if s.drop_first().contains('%') {
                let i = choose|i: int| 0 <= i < s.drop_first().len() && s.drop_first()[i] == '%';
                assert(s[i + 1] == '%');
            }
        }
        lemma_plus_is_space(s.drop_first());
        let c = if s[0] == '+' {
            ' '
        } else {
            s[0]
        };
        assert(seq![c] + plus_to_space(s.drop_first()) =~= plus_to_space(s));
    }
}

/// A plain name decodes to itself.
proof fn lemma_plain_name_decodes(k: Seq<char>)
    requires
        plain_name(k),
    ensures
        form_decode(k) == Some(k),
{
    lemma_plus_is_space(k);
    assert forall|i: int| 0 <= i < k.len() implies k[i] != '+' by {
        if k[i] == '+' {
            assert(k.contains('+'));
        }
    }
    assert(plus_to_space(k) =~= k);
}

/// A query made of one pair `k=v` (plain name, value without `&` or `%`) reads
/// as that one pair, the value with every `+` a space; so parameter `k` has that
/// value.
pub proof fn lemma_single_pair(k: Seq<char>, v: Seq<char>)
    requires
        plain_name(k),
        plain_text(v),
    ensures
        form_pairs(k + seq!['='] + v) == Some(seq![(k, plus_to_space(v))]),
        first_value(seq![(k, plus_to_space(v))], k) == Some(plus_to_space(v)),
{
    let q = k + seq!['='] + v;
    assert(!q.contains('&')) by {
        if q.contains('&') {
            let i = choose|i: int| 0 <= i < q.len() && q[i] == '&';
            if i < k.len() {
                assert(k[i] == '&');
                assert(k.contains('&'));
            } else if i > k.len() {
                assert(v[i - k.len() - 1] == '&');
                assert(v.contains('&'));
            }
        }
    }
    lemma_segments_no_amp(q, Seq::empty());
    assert(Seq::<char>::empty() + q =~= q);
    lemma_name_value(k, v);
    lemma_plain_name_decodes(k);
    lemma_plus_is_space(v);
    let segs = segments(q);
    assert(segs =~= seq![q]);
    assert(segs.drop_first() =~= Seq::<Seq<char>>::empty());
    assert(decode_segments(segs.drop_first()) == Some(Seq::<(Seq<char>, Seq<char>)>::empty()));
    assert(segs[0] == q);
    assert(name_value(segs[0]) == (k, v));
    assert(seq![(k, plus_to_space(v))] + Seq::<(Seq<char>, Seq<char>)>::empty() =~= seq![(k, plus_to_space(v))]);
    assert(seq![(k, plus_to_space(v))].drop_first() =~= Seq::<(Seq<char>, Seq<char>)>::empty());
}

/// Pairs are read in order: a query `k=v&rest` reads as the pair
/// `(k, v with + as space)` followed by the pairs of `rest`; so `k` has value
/// `v` whatever `rest` holds (the first pair wins), and every other name has
/// the value it has in `rest`.
pub proof fn lemma_first_pair_then_rest(k: Seq<char>, v: Seq<char>, rest: Seq<char>, other: Seq<char>)
    requires
        plain_name(k),
        plain_text(v),
        form_pairs(rest) is Some,
    ensures
        form_pairs(k + seq!['='] + v + seq!['&'] + rest) == Some(
            seq![(k, plus_to_space(v))] + form_pairs(rest)->0,
        ),
        first_value(seq![(k, plus_to_space(v))] + form_pairs(rest)->0, k) == Some(plus_to_space(v)),
        other != k ==> first_value(seq![(k, plus_to_space(v))] + form_pairs(rest)->0, other) == first_value(
            form_pairs(rest)->0,
            other,
        ),
{
    let a = k + seq!['='] + v;
    assert(!a.contains('&')) by {
        if a.contains('&') {
            let i = choose|i: int| 0 <= i < a.len() && a[i] == '&';
            if i < k.len() {
                assert(k[i] == '&');
                assert(k.contains('&'));
            } else if i > k.len() {
                assert(v[i - k.len() - 1] == '&');
                assert(v.contains('&'));
            }
        }
    }
    lemma_segments_amp(a, rest, Seq::empty());
    assert(Seq::<char>::empty() + a =~= a);
    assert(k + seq!['='] + v + seq!['&'] + rest =~= a + seq!['&'] + rest);
    lemma_name_value(k, v);
    lemma_plain_name_decodes(k);
    lemma_plus_is_space(v);
    let segs = segments(a + seq!['&'] + rest);
    assert(segs =~= seq![a] + segments(rest));
    assert(segs[0] == a);
    assert(segs.drop_first() =~= segments(rest));
    let ps = seq![(k, plus_to_space(v))] + form_pairs(rest)->0;
    assert(ps.drop_first() =~= form_pairs(rest)->0);
}

} // verus!
