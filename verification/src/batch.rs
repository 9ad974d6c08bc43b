//! Splitting database writes into batches.
//!
//! Upserts are sent to the database in batches of at most `BATCH_SIZE`
//! statements, in order.

use vstd::prelude::*;

verus! {

/// The largest number of statements sent to the database in one batch.
pub const BATCH_SIZE: usize = 100;

/// The number of batches that `n` statements take.
pub open spec fn batch_count(n: nat) -> nat {
    (n + 99) / 100
}

/// The statements `start..end` of batch `k` among `n` statements.
pub open spec fn batch_bounds(n: nat, k: nat) -> (nat, nat) {
    (k * 100, if k * 100 + 100 <= n { k * 100 + 100 } else { n })
}

/// The batches of `count` statements, as `start..end` ranges, in order.
pub fn batch_ranges(count: usize) -> (r: Vec<(usize, usize)>)
    ensures
        r@.len() == batch_count(count as nat),
        forall|k: int|
            0 <= k < r@.len() ==> (#[trigger] r@[k].0 as nat, r@[k].1 as nat) == batch_bounds(
                count as nat,
                k as nat,
            ),
{
    let mut r: Vec<(usize, usize)> = Vec::new();
    let mut start: usize = 0;
    while start < count
        invariant
            start <= count,
            start == 100 * r@.len() || (start == count && r@.len() > 0 && 100 * (r@.len() - 1) < count <= 100 * r@.len()),
            forall|k: int|
                0 <= k < r@.len() ==> (#[trigger] r@[k].0 as nat, r@[k].1 as nat) == batch_bounds(
                    count as nat,
                    k as nat,
                ),
        decreases count - start,
    {
        let end: usize = if count - start > BATCH_SIZE { start + BATCH_SIZE } else { count };
        r.push((start, end));
        start = end;
    }
    let ghost len = r@.len();
    proof {
        if count > 0 {
            assert(100 * (len - 1) < count <= 100 * len);
            assert(len == (count + 99) / 100) by (nonlinear_arith)
                requires
                    100 * (len - 1) < count <= 100 * len,
                    len > 0,
            ;
        }
    }
    r
}

/// The batches cover the statements `0..n` in order, without gap or overlap:
/// each holds at least one and at most `BATCH_SIZE` statements, and every batch
/// but the last holds exactly `BATCH_SIZE`.
pub proof fn lemma_batches_partition(n: nat)
    ensures
        n == 0 ==> batch_count(n) == 0,
        n > 0 ==> batch_bounds(n, 0).0 == 0 && batch_bounds(n, (batch_count(n) - 1) as nat).1 == n,
        forall|k: nat| #![trigger batch_bounds(n, k)]
            k + 1 < batch_count(n) ==> batch_bounds(n, k).1 == batch_bounds(n, k + 1).0 && batch_bounds(n, k).1
                - batch_bounds(n, k).0 == 100,
        forall|k: nat| #![trigger batch_bounds(n, k)]
            k < batch_count(n) ==> 0 < batch_bounds(n, k).1 - batch_bounds(n, k).0 <= 100,
{
    let c = batch_count(n);
    assert(100 * c >= n && (c == 0 || 100 * (c - 1) < n)) by (nonlinear_arith)
        requires
            c == (n + 99) / 100,
    ;
    assert forall|k: nat| k + 1 < c implies #[trigger] batch_bounds(n, k).1 == k * 100 + 100 by {
        assert(k * 100 + 100 <= 100 * (c - 1)) by (nonlinear_arith)
            requires
                k + 1 < c,
        ;
    }
    assert forall|k: nat| k < c implies #[trigger] batch_bounds(n, k).0 < n by {
        assert(k * 100 <= 100 * (c - 1)) by (nonlinear_arith)
            requires
                k < c,
        ;
    }
}

} // verus!
