//! Ordering candidate villages by distance.
//!
//! Each candidate is known here by its position in the candidate list and by a
//! `u64` distance key that orders candidates as their distances do. Candidates
//! are ordered by key; equal keys keep their list order (a stable sort). The
//! `limit` nearest are the first `limit` of that order.

use vstd::prelude::*;

verus! {

/// Candidate `a` comes before candidate `b`: a smaller key, or the same key and
/// an earlier position.
pub open spec fn closer(keys: Seq<u64>, a: int, b: int) -> bool {
    keys[a] < keys[b] || (keys[a] == keys[b] && a < b)
}

/// The smaller of two lengths.
pub open spec fn min_len(a: nat, b: nat) -> nat {
    if a < b {
        a
    } else {
        b
    }
}

/// Every candidate in `r` comes strictly before every later one in `r`.
pub open spec fn in_order(keys: Seq<u64>, r: Seq<usize>) -> bool {
    forall|a: int, b: int|
        #![trigger r[a], r[b]]
        0 <= a < b < r.len() ==> closer(keys, r[a] as int, r[b] as int)
}

/// `r` lists the `limit` nearest candidates (all of them when there are fewer),
/// nearest first, ties in list order: the first `limit` candidates of a stable
/// sort by key.
pub open spec fn nearest_first(keys: Seq<u64>, limit: nat, r: Seq<usize>) -> bool {
    &&& r.len() == min_len(limit, keys.len())
    &&& forall|j: int| 0 <= j < r.len() ==> #[trigger] r[j] < keys.len()
    &&& in_order(keys, r)
    &&& forall|i: usize, j: int|
        #![trigger r.contains(i), r[j]]
        i < keys.len() && 0 <= j < r.len() && !r.contains(i) ==> closer(keys, r[j] as int, i as int)
}

/// Two lists that both answer "the nearest candidates" agree on their common
/// length.
proof fn lemma_agree_upto(
    keys: Seq<u64>,
    l1: nat,
    r1: Seq<usize>,
    l2: nat,
    r2: Seq<usize>,
    k: int,
)
    requires
        nearest_first(keys, l1, r1),
        nearest_first(keys, l2, r2),
        l2 <= l1,
        0 <= k <= r2.len(),
    ensures
        forall|t: int| 0 <= t < k ==> r1[t] == r2[t],
    decreases k,
{
    if k > 0 {
        lemma_agree_upto(keys, l1, r1, l2, r2, k - 1);
        let x = r1[k - 1];
        let y = r2[k - 1];
        assert(r2.len() <= r1.len());
        if x != y {
            if closer(keys, x as int, y as int) {
                if r2.contains(x) {
                    let q = choose|q: int| 0 <= q < r2.len() && r2[q] == x;
                    if q < k - 1 {
                        assert(r1[q] == x);
                        assert(closer(keys, r1[q] as int, r1[k - 1] as int));
                    } else {
                        assert(closer(keys, r2[k - 1] as int, r2[q] as int));
                    }
                } else {
                    assert(closer(keys, r2[k - 1] as int, x as int));
                }
            } else {
                if r1.contains(y) {
                    let q = choose|q: int| 0 <= q < r1.len() && r1[q] == y;
                    if q < k - 1 {
                        assert(r2[q] == y);
                        assert(closer(keys, r2[q] as int, r2[k - 1] as int));
                    } else {
                        assert(closer(keys, r1[k - 1] as int, r1[q] as int));
                    }
                } else {
                    assert(closer(keys, r1[k - 1] as int, y as int));
                }
            }
        }
    }
}

/// Asking for fewer nearest candidates gives a prefix of the longer answer:
/// there is exactly one answer for each limit, and a smaller limit's answer is
/// the start of a larger one's.
pub proof fn lemma_nearest_prefix(keys: Seq<u64>, l1: nat, r1: Seq<usize>, l2: nat, r2: Seq<usize>)
    requires
        nearest_first(keys, l1, r1),
        nearest_first(keys, l2, r2),
        l2 <= l1,
    ensures
        r2 =~= r1.take(r2.len() as int),
{
    lemma_agree_upto(keys, l1, r1, l2, r2, r2.len() as int);
}

/// What "the nearest first" means on the keys themselves: listed candidates go
/// by non-decreasing key, equal keys in list order, and every candidate left
/// out has a key at least as large as every listed one (and, when equal, a
/// later position).
pub proof fn lemma_nearest_by_key(keys: Seq<u64>, limit: nat, r: Seq<usize>)
    requires
        nearest_first(keys, limit, r),
    ensures
        r.len() == min_len(limit, keys.len()),
        forall|a: int, b: int|
            #![trigger r[a], r[b]]
            0 <= a < b < r.len() ==> keys[r[a] as int] <= keys[r[b] as int],
        forall|a: int, b: int|
            #![trigger r[a], r[b]]
            0 <= a < b < r.len() && keys[r[a] as int] == keys[r[b] as int] ==> r[a] < r[b],
        forall|i: usize, j: int|
            #![trigger r.contains(i), r[j]]
            i < keys.len() && 0 <= j < r.len() && !r.contains(i) ==> keys[r[j] as int] <= keys[i as int],
        forall|i: usize, j: int|
            #![trigger r.contains(i), r[j]]
            i < keys.len() && 0 <= j < r.len() && !r.contains(i) && keys[r[j] as int] == keys[i as int] ==> r[j] < i,
{
}

/// The positions of the `limit` nearest candidates, nearest first, candidates
/// with equal keys in list order.
pub fn nearest_order(keys: &Vec<u64>, limit: usize) -> (r: Vec<usize>)
    ensures
        nearest_first(keys@, limit as nat, r@),
        r@.len() == min_len(limit as nat, keys@.len()),
        forall|a: int, b: int|
            #![trigger r@[a], r@[b]]
            0 <= a < b < r@.len() ==> keys@[r@[a] as int] <= keys@[r@[b] as int],
        forall|a: int, b: int|
            #![trigger r@[a], r@[b]]
            0 <= a < b < r@.len() && keys@[r@[a] as int] == keys@[r@[b] as int] ==> r@[a] < r@[b],
        forall|i: usize, j: int|
            #![trigger r@.contains(i), r@[j]]
            i < keys@.len() && 0 <= j < r@.len() && !r@.contains(i) ==> keys@[r@[j] as int] <= keys@[i as int],
{
    let n = keys.len();
    let mut sorted: Vec<usize> = Vec::new();
    let mut i: usize = 0;
    while i < n
        invariant
            n == keys@.len(),
            i <= n,
            sorted@.len() == i,
            forall|j: int| 0 <= j < sorted@.len() ==> #[trigger] sorted@[j] < i,
            forall|k: usize| k < i ==> sorted@.contains(k),
            in_order(keys@, sorted@),
        decreases n - i,
    {
        let mut p: usize = 0;
        while p < sorted.len() && keys[sorted[p]] <= keys[i]
            invariant
                n == keys@.len(),
                i < n,
                p <= sorted@.len(),
                forall|j: int| 0 <= j < sorted@.len() ==> #[trigger] sorted@[j] < i,
                forall|q: int| 0 <= q < p ==> keys@[#[trigger] sorted@[q] as int] <= keys@[i as int],
            decreases sorted@.len() - p,
        {
            p = p + 1;
        }
        let ghost old_sorted = sorted@;
        sorted.insert(p, i);
        proof {
            let s = sorted@;
            assert(s =~= old_sorted.insert(p as int, i));
            assert forall|a: int, b: int| 0 <= a < b < s.len() implies closer(keys@, s[a] as int, s[b] as int) by {
                if b < p {
                    assert(s[a] == old_sorted[a] && s[b] == old_sorted[b]);
                } else if b == p {
                    assert(s[a] == old_sorted[a]);
                    assert(keys@[old_sorted[a] as int] <= keys@[i as int]);
                } else if a == p {
                    assert(s[b] == old_sorted[b - 1]);
                    assert(p < old_sorted.len());
                    assert(keys@[old_sorted[p as int] as int] > keys@[i as int]);
                    if b - 1 > p {
                        assert(closer(keys@, old_sorted[p as int] as int, old_sorted[b - 1] as int));
                    }
                } else if a < p {
                    assert(s[a] == old_sorted[a] && s[b] == old_sorted[b - 1]);
                    assert(closer(keys@, old_sorted[a] as int, old_sorted[b - 1] as int));
                } else {
                    assert(s[a] == old_sorted[a - 1] && s[b] == old_sorted[b - 1]);
                    assert(closer(keys@, old_sorted[a - 1] as int, old_sorted[b - 1] as int));
                }
            }
            assert forall|k: usize| k < i + 1 implies s.contains(k) by {
                if k == i {
                    assert(s[p as int] == i);
                } else {
                    assert(old_sorted.contains(k));
                    let q = choose|q: int| 0 <= q < old_sorted.len() && old_sorted[q] == k;
                    if q < p {
                        assert(s[q] == k);
                    } else {
                        assert(s[q + 1] == k);
                    }
                }
            }
            assert forall|j: int| 0 <= j < s.len() implies #[trigger] s[j] < i + 1 by {
                if j < p {
                    assert(s[j] == old_sorted[j]);
                } else if j > p {
                    assert(s[j] == old_sorted[j - 1]);
                }
            }
        }
        i = i + 1;
    }
    let ghost full = sorted@;
    if limit < n {
        sorted.truncate(limit);
    }
    proof {
        let r = sorted@;
        assert(r =~= full.take(r.len() as int));
        assert forall|i: usize, j: int|
            #![trigger r.contains(i), r[j]]
            i < keys@.len() && 0 <= j < r.len() && !r.contains(i) implies closer(keys@, r[j] as int, i as int) by {
            assert(full.contains(i));
            let q = choose|q: int| 0 <= q < full.len() && full[q] == i;
            if q < r.len() {
                assert(r[q] == i);
            }
            assert(full[j] == r[j]);
        }
    }
    proof {
        lemma_nearest_by_key(keys@, limit as nat, sorted@);
    }
    sorted
}

/// The position of the nearest candidate (the first of the stable order), or
/// `None` when there are no candidates.
pub fn nearest_index(keys: &Vec<u64>) -> (r: Option<usize>)
    ensures
        r is None <==> keys@.len() == 0,
        r matches Some(k) ==> nearest_first(keys@, 1, seq![k]),
{
    let order = nearest_order(keys, 1);
    if order.len() == 0 {
        None
    } else {
        let k = order[0];
        assert(order@ =~= seq![k]);
        Some(k)
    }
}

/// The items at the positions `order`, in that order.
pub fn pick<T>(items: Vec<T>, order: &Vec<usize>) -> (r: Vec<T>)
    requires
        forall|j: int| 0 <= j < order@.len() ==> #[trigger] order@[j] < items@.len(),
        forall|a: int, b: int| #![trigger order@[a], order@[b]] 0 <= a < b < order@.len() ==> order@[a] != order@[b],
    ensures
        r@ == order@.map_values(|i: usize| items@[i as int]),
{
    let ghost orig = items@;
    let n = items.len();
    let mut items = items;
    let mut slots: Vec<Option<T>> = Vec::new();
    while items.len() > 0
        invariant
            items@ == orig.take(items@.len() as int),
            slots@.len() + items@.len() == n,
            n == orig.len(),
            forall|p: int| 0 <= p < slots@.len() ==> #[trigger] slots@[p] == Some(orig[n - 1 - p]),
        decreases items@.len(),
    {
        match items.pop() {
            Some(x) => {
                assert(x == orig[n - 1 - slots@.len()]);
                slots.push(Some(x));
            },
            None => {},
        }
        assert(items@ =~= orig.take(items@.len() as int));
    }
    let mut r: Vec<T> = Vec::new();
    let mut j: usize = 0;
    while j < order.len()
        invariant
            n == orig.len(),
            slots@.len() == n,
            j <= order@.len(),
            r@.len() == j,
            forall|q: int| 0 <= q < order@.len() ==> #[trigger] order@[q] < n,
            forall|a: int, b: int| #![trigger order@[a], order@[b]] 0 <= a < b < order@.len() ==> order@[a] != order@[b],
            forall|q: int| 0 <= q < j ==> #[trigger] r@[q] == orig[order@[q] as int],
            forall|p: int|
                0 <= p < n ==> #[trigger] slots@[p] == (if order@.take(j as int).contains((n - 1 - p) as usize) {
                    None
                } else {
                    Some(orig[n - 1 - p])
                }),
        decreases order@.len() - j,
    {
        let k = order[j];
        let pos = n - 1 - k;
        assert(!order@.take(j as int).contains(k)) by {
            if order@.take(j as int).contains(k) {
                let q = choose|q: int| 0 <= q < j && order@.take(j as int)[q] == k;
                assert(order@[q] == order@[j as int]);
            }
        }
        assert(slots@[pos as int] == Some(orig[k as int]));
        let ghost before = slots@;
        let t = slots[pos].take();
        assert(order@.take(j + 1) =~= order@.take(j as int).push(k));
        assert forall|p: int| 0 <= p < n implies #[trigger] slots@[p] == (if order@.take(j + 1).contains((n - 1 - p) as usize) {
            None
        } else {
            Some(orig[n - 1 - p])
        }) by {
            if p != pos {
                assert(slots@[p] == before[p]);
                assert((n - 1 - p) as usize != k);
                let v = (n - 1 - p) as usize;
                let t1 = order@.take(j + 1);
                if t1.contains(v) {
                    let q = choose|q: int| 0 <= q < t1.len() && t1[q] == v;
                    assert(order@.take(j as int)[q] == v);
                }
            } else {
                assert(order@.take(j + 1)[j as int] == k);
            }
        }
        match t {
            Some(x) => {
                r.push(x);
            },
            None => {},
        }
        j = j + 1;
    }
    assert(r@ =~= order@.map_values(|i: usize| orig[i as int]));
    r
}

/// The `limit` nearest items, nearest first, candidates with equal keys in list
/// order (`keys[i]` is the distance key of `items[i]`).
pub fn take_nearest<T>(items: Vec<T>, keys: &Vec<u64>, limit: usize) -> (r: Vec<T>)
    requires
        items@.len() == keys@.len(),
    ensures
        exists|order: Seq<usize>|
            nearest_first(keys@, limit as nat, order) && r@ == order.map_values(|i: usize| items@[i as int]),
{
    let ghost orig = items@;
    let order = nearest_order(keys, limit);
    assert forall|a: int, b: int| #![trigger order@[a], order@[b]] 0 <= a < b < order@.len() implies order@[a] != order@[b] by {
        assert(closer(keys@, order@[a] as int, order@[b] as int));
    }
    let r = pick(items, &order);
    assert(nearest_first(keys@, limit as nat, order@) && r@ == order@.map_values(|i: usize| orig[i as int]));
    r
}

} // verus!
