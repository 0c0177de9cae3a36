//! Row partitions for the parallel noise strategies: the contiguous block
//! scheme (which drops the last `size mod threads` rows) and the strided
//! round-robin scheme (which covers every row exactly once).

use vstd::prelude::*;
use vstd::arithmetic::div_mod::lemma_fundamental_div_mod;
use vstd::arithmetic::div_mod::lemma_fundamental_div_mod_converse;
use vstd::arithmetic::div_mod::lemma_mod_pos_bound;
use vstd::arithmetic::div_mod::lemma_div_pos_is_pos;

verus! {

/// Under the strided policy, worker `t` of `threads` owns the rows
/// `t, t + threads, t + 2·threads, …`.
pub open spec fn strided_owns(t: int, threads: int, i: int) -> bool {
    0 <= t < threads && exists|m: int| 0 <= m && i == t + #[trigger] (m * threads)
}

/// Under the block policy, worker `t` of `threads` owns the contiguous rows
/// `[t·⌊size/threads⌋, (t+1)·⌊size/threads⌋)`.
pub open spec fn block_owns(t: int, threads: int, size: int, i: int) -> bool {
    0 <= t < threads && t * (size / threads) <= i < (t + 1) * (size / threads)
}

/// The rows the block policy assigns in all: `threads·⌊size/threads⌋`.
pub open spec fn block_rows(size: int, threads: int) -> int {
    threads * (size / threads)
}

/// The strided policy is an exact cover: every row `i` below `size` is owned
/// by worker `i % threads` and by no other worker.
pub proof fn lemma_strided_partition(threads: int, size: int, i: int)
    requires
        1 <= threads,
        0 <= i < size,
    ensures
        strided_owns(i % threads, threads, i),
        forall|t: int| strided_owns(t, threads, i) ==> t == i % threads,
{
    lemma_fundamental_div_mod(i, threads);
    assert(i == (i % threads) + (i / threads) * threads) by {
        assert(threads * (i / threads) == (i / threads) * threads)
            by (nonlinear_arith);
    }
    assert(0 <= i / threads) by {
        assert(i == (i % threads) + (i / threads) * threads);
        if i / threads < 0 {
            assert((i / threads) * threads <= -threads) by (nonlinear_arith)
                requires
                    i / threads <= -1,
                    1 <= threads,
            ;
        }
    }
    assert(strided_owns(i % threads, threads, i));
    assert forall|t: int| strided_owns(t, threads, i) implies t == i % threads by {
        let m = choose|m: int| 0 <= m && i == t + #[trigger] (m * threads);
        lemma_fundamental_div_mod_converse(i, threads, m, t);
    }
}

/// The block policy assigns `threads·⌊size/threads⌋` rows in all: never more
/// than `size`, and exactly `size` precisely when `threads` divides `size`.
/// When it does not, the final `size mod threads` rows belong to no worker.
pub proof fn lemma_block_truncation(size: int, threads: int)
    requires
        0 <= size,
        1 <= threads,
    ensures
        block_rows(size, threads) <= size,
        block_rows(size, threads) == size <==> size % threads == 0,
{
    lemma_fundamental_div_mod(size, threads);
    lemma_mod_pos_bound(size, threads);
}

/// Block workers own disjoint row ranges, in worker order: the rows of worker
/// `t` all precede the rows of worker `t + 1`.
pub proof fn lemma_block_disjoint(threads: int, size: int, t1: int, t2: int, i: int)
    requires
        1 <= threads,
        0 <= size,
        0 <= t1 < t2 < threads,
        block_owns(t1, threads, size, i),
    ensures
        !block_owns(t2, threads, size, i),
{
    let seg = size / threads;
    assert(0 <= seg) by {
        lemma_div_pos_is_pos(size, threads);
    }
    assert((t1 + 1) * seg <= t2 * seg) by (nonlinear_arith)
        requires
            t1 + 1 <= t2,
            0 <= seg,
    ;
}

} // verus!
