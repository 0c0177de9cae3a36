//! The noise engines: every sample an independent uniform draw from
//! [0, 255). One buffer is filled sequentially, one by private row blocks
//! joined in worker order, and one by a work-distributing runtime with one
//! unit per sample. The shared-lock engine lives in `shared`.

use vstd::prelude::*;
use rayon::iter::IntoParallelIterator;
use rayon::iter::ParallelIterator;
use vstd::arithmetic::div_mod::lemma_div_nonincreasing;
use vstd::arithmetic::div_mod::lemma_div_pos_is_pos;
use vstd::arithmetic::div_mod::lemma_fundamental_div_mod_converse;
use crate::buffer::PixelBuffer;
use crate::buffer::zero_bytes;
use crate::partition::block_rows;
use crate::partition::lemma_block_truncation;
use crate::rng::par_fill_random;
use crate::rng::random_byte;

verus! {

/// Every sample of the buffer is a value the noise source can draw: below 255.
pub open spec fn all_noise(b: PixelBuffer) -> bool {
    forall|m: int| 0 <= m < b.data@.len() ==> b.data@[m] < 255
}

/// One worker's task: a fresh `rows × cols × 3` block, every sample one
/// uniform draw, filled in row-major order.
pub fn fill_noise_rows(rows: usize, cols: usize) -> (r: PixelBuffer)
    requires
        rows * cols * 3 <= usize::MAX,
    ensures
        r.wf(),
        r.rows == rows,
        r.cols == cols,
        all_noise(r),
{
    proof {
        assert(0 <= rows as int * cols as int) by (nonlinear_arith);
    }
    let rc: usize = rows * cols;
    let total: usize = rc * 3;
    let mut data: Vec<u8> = Vec::new();
    let mut n: usize = 0;
    while n < total
        invariant
            n <= total,
            data@.len() == n,
            forall|m: int| 0 <= m < n ==> data@[m] < 255,
        decreases total - n,
    {
        let b: u8 = random_byte();
        data.push(b);
        n = n + 1;
    }
    PixelBuffer { data, rows, cols }
}

/// Sequential noise engine: a `size × size × 3` buffer filled by a single
/// task with a single generator, row-major, one uniform draw per sample.
pub fn generate_noise(size: usize) -> (r: PixelBuffer)
    requires
        size * size * 3 <= usize::MAX,
    ensures
        r.wf(),
        r.rows == size,
        r.cols == size,
        all_noise(r),
{
    fill_noise_rows(size, size)
}

/// Relies on rayon's `into_par_iter`/`map`/`collect` over the worker indexes:
/// each index below `threads` is handed to the verified row fill exactly
/// once, and the sub-buffers come back collected in worker-index order.
#[verifier::external_body]
fn spawn_block_workers(threads: usize, seg: usize, cols: usize) -> (parts: Vec<PixelBuffer>)
    requires
        seg * cols * 3 <= usize::MAX,
    ensures
        parts@.len() == threads,
        forall|t: int|
            0 <= t < parts@.len() ==> (#[trigger] parts@[t]).wf() && parts@[t].rows == seg
                && parts@[t].cols == cols && all_noise(parts@[t]),
{
    (0..threads).into_par_iter().map(|_t| fill_noise_rows(seg, cols)).collect()
}

/// Join equally-sized row blocks in worker order: block `t` supplies rows
/// `[t·seg, (t+1)·seg)` of the result, its bytes unchanged and in order.
#[verifier::loop_isolation(false)]
pub fn concat_uniform(parts: &Vec<PixelBuffer>, seg: usize, cols: usize) -> (r: PixelBuffer)
    requires
        seg * cols * 3 <= usize::MAX,
        parts@.len() * seg <= usize::MAX,
        parts@.len() * (seg * cols * 3) <= usize::MAX,
        forall|t: int|
            0 <= t < parts@.len() ==> (#[trigger] parts@[t]).wf() && parts@[t].rows == seg
                && parts@[t].cols == cols,
    ensures
        r.wf(),
        r.cols == cols,
        r.rows == parts@.len() * seg,
        forall|n: int|
            0 <= n < r.data@.len() ==> 0 <= #[trigger] (n / (seg * cols * 3)) < parts@.len()
                && 0 <= n % (seg * cols * 3) < seg * cols * 3
                && r.data@[n] == parts@[n / (seg * cols * 3)].data@[n % (seg * cols * 3)],
{
    proof {
        assert(0 <= seg as int * cols as int) by (nonlinear_arith);
    }
    let sc: usize = seg * cols;
    let bsize: usize = sc * 3;
    let nparts: usize = parts.len();
    let mut data: Vec<u8> = Vec::new();
    let mut t: usize = 0;
    while t < nparts
        invariant
            t <= nparts,
            data@.len() == t * bsize,
            forall|n: int|
                0 <= n < data@.len() ==> 0 <= #[trigger] (n / (bsize as int)) < t && 0 <= n % (
                bsize as int) < bsize && data@[n] == parts@[n / (bsize as int)].data@[n % (
                bsize as int)],
        decreases nparts - t,
    {
        let mut m: usize = 0;
        while m < bsize
            invariant
                t < nparts,
                m <= bsize,
                data@.len() == t * bsize + m,
                forall|n: int|
                    0 <= n < data@.len() ==> 0 <= #[trigger] (n / (bsize as int)) <= t && 0 <= n % (
                    bsize as int) < bsize && data@[n] == parts@[n / (bsize as int)].data@[n % (
                    bsize as int)],
            decreases bsize - m,
        {
            let b: u8 = parts[t].get_flat(m);
            data.push(b);
            proof {
                lemma_fundamental_div_mod_converse(
                    t as int * bsize as int + m as int,
                    bsize as int,
                    t as int,
                    m as int,
                );
            }
            m = m + 1;
        }
        proof {
            assert((t as int + 1) * bsize as int == t as int * bsize as int + bsize as int)
                by (nonlinear_arith);
        }
        t = t + 1;
    }
    proof {
        assert(nparts as int * (seg as int * cols as int * 3) == (nparts as int * seg as int)
            * cols as int * 3) by (nonlinear_arith);
    }
    let total_rows: usize = nparts * seg;
    PixelBuffer { data, rows: total_rows, cols }
}

/// Row-block parallel noise engine: rows are split with the block policy,
/// each of `threads` workers fills a private `⌊size/threads⌋ × size × 3`
/// block with its own generator and no shared state, and the blocks are
/// joined back in worker order. When `threads` does not divide `size` the
/// result is deliberately short — `threads·⌊size/threads⌋` rows — and the
/// remainder rows are never produced.
pub fn generate_noise_block_parallel(size: usize, threads: usize) -> (r: PixelBuffer)
    requires
        1 <= threads,
        size * size * 3 <= usize::MAX,
    ensures
        r.wf(),
        r.cols == size,
        r.rows == block_rows(size as int, threads as int),
        r.rows <= size,
        all_noise(r),
{
    let seg: usize = size / threads;
    proof {
        lemma_block_truncation(size as int, threads as int);
        lemma_div_pos_is_pos(size as int, threads as int);
        lemma_div_nonincreasing(size as int, threads as int);
        assert(seg as int * size as int * 3 <= size as int * size as int * 3) by (nonlinear_arith)
            requires
                0 <= seg <= size,
        ;
        assert(threads as int * (seg as int * size as int * 3) <= size as int * size as int * 3)
            by (nonlinear_arith)
            requires
                threads as int * seg as int <= size as int,
                0 <= seg,
                0 <= size,
                0 <= threads,
        ;
    }
    let parts = spawn_block_workers(threads, seg, size);
    let r = concat_uniform(&parts, seg, size);
    assert(all_noise(r)) by {
        assert forall|m: int| 0 <= m < r.data@.len() implies r.data@[m] < 255 by {
            let q: int = m / (seg as int * size as int * 3);
            assert(r.data@[m] == parts@[q].data@[m % (seg as int * size as int * 3)]);
        }
    }
    r
}

/// Element-parallel noise engine: the flat samples are one unit of work each,
/// scheduled by a work-distributing runtime; every unit draws its sample from
/// its own entropy-seeded generator, so no state is shared and no lock is
/// needed. The values are not reproducible across runs.
pub fn generate_noise_element_parallel(size: usize) -> (r: PixelBuffer)
    requires
        size * size * 3 <= usize::MAX,
    ensures
        r.wf(),
        r.rows == size,
        r.cols == size,
        all_noise(r),
{
    proof {
        assert(0 <= size as int * size as int) by (nonlinear_arith);
    }
    let rc: usize = size * size;
    let mut data: Vec<u8> = zero_bytes(rc * 3);
    par_fill_random(&mut data);
    PixelBuffer { data, rows: size, cols: size }
}

} // verus!
