//! The shared-lock noise engine: one full buffer behind a mutual-exclusion
//! guard, filled by strided workers that take the lock once per sample. This
//! is deliberately the highest-contention strategy; its row partition is the
//! strided policy, which covers every row exactly once (see `partition`).

use vstd::prelude::*;
use std::sync::Arc;
use std::sync::Mutex;
use rayon::iter::IntoParallelIterator;
use rayon::iter::ParallelIterator;
use crate::buffer::PixelBuffer;
use crate::buffer::lemma_cell_index;
use crate::buffer::zero_bytes;
use crate::rng::random_byte;

verus! {

/// A byte buffer owned jointly by several workers, each single-sample write
/// guarded by one mutual-exclusion lock. Opaque to the verifier; the trusted
/// methods below state what the lock discipline guarantees.
#[verifier::external_body]
pub struct SharedImage {
    cells: Arc<Mutex<Vec<u8>>>,
}

/// The number of byte cells a `SharedImage` holds. Fixed at creation:
/// single-cell stores never change it.
pub uninterp spec fn shared_len(s: SharedImage) -> nat;

impl SharedImage {
    /// Relies on `Mutex::new` around the given zero-filled vector: the shared
    /// buffer starts with exactly its `len` cells.
    #[verifier::external_body]
    pub fn new(cells: Vec<u8>) -> (s: SharedImage)
        ensures
            shared_len(s) == cells@.len(),
    {
        SharedImage { cells: Arc::new(Mutex::new(cells)) }
    }

    /// Relies on `Mutex::lock`: exclusive access for one single-cell store.
    /// A guard poisoned by a failed peer is recovered, so the store cannot
    /// panic; concurrent peers may store other cells, so nothing is stated
    /// about the contents.
    #[verifier::external_body]
    fn write(&self, idx: usize, value: u8)
        requires
            idx < shared_len(*self),
    {
        let mut guard = self.cells.lock().unwrap_or_else(|e| e.into_inner());
        guard[idx] = value;
    }

    /// Relies on `Mutex::lock` and `Vec::clone`: the cells as one owned
    /// vector. Single-cell stores never change the length, so it is the
    /// length fixed at creation.
    #[verifier::external_body]
    pub fn snapshot(&self) -> (v: Vec<u8>)
        ensures
            v@.len() == shared_len(*self),
    {
        self.cells.lock().unwrap_or_else(|e| e.into_inner()).clone()
    }
}

/// One worker's task under the strided policy: take rows `t, t + threads, …`
/// of the `size × size` grid and store one uniform draw per sample, locking
/// once per store.
#[verifier::loop_isolation(false)]
fn strided_fill(image: &SharedImage, t: usize, threads: usize, size: usize)
    requires
        1 <= threads,
        t < threads,
        size * size * 3 <= usize::MAX,
        shared_len(*image) == size * size * 3,
{
    let mut i: usize = t;
    while i < size
        invariant
            t <= i,
        decreases size - i,
    {
        let mut j: usize = 0;
        while j < size
            invariant
                i < size,
                j <= size,
            decreases size - j,
        {
            let mut k: usize = 0;
            while k < 3
                invariant
                    i < size,
                    j < size,
                    k <= 3,
                decreases 3 - k,
            {
                proof {
                    lemma_cell_index(size as int, size as int, i as int, j as int, k as int);
                }
                let idx: usize = (i * size + j) * 3 + k;
                image.write(idx, random_byte());
                k = k + 1;
            }
            j = j + 1;
        }
        if threads <= size - 1 - i {
            i = i + threads;
        } else {
            i = size;
        }
    }
}

/// Relies on rayon's `into_par_iter`/`for_each` over the worker indexes:
/// every index below `threads` is handed exactly once to the verified
/// strided fill, and all workers are joined before the call returns. A
/// failed worker fails the whole call, so no partial buffer is surfaced.
#[verifier::external_body]
fn run_strided_workers(image: &SharedImage, threads: usize, size: usize)
    requires
        1 <= threads,
        size * size * 3 <= usize::MAX,
        shared_len(*image) == size * size * 3,
{
    (0..threads).into_par_iter().for_each(|t| strided_fill(image, t, threads, size));
}

/// Shared-lock noise engine: one zero-initialized `size × size × 3` buffer
/// behind a single lock, filled by `threads` strided workers that each
/// acquire the lock once per sample — the worst-throughput strategy, kept to
/// contrast with the disjoint-ownership ones. The strided partition covers
/// every cell exactly once regardless of divisibility, so the result always
/// has all `size` rows.
pub fn generate_noise_shared_lock(size: usize, threads: usize) -> (r: PixelBuffer)
    requires
        1 <= threads,
        size * size * 3 <= usize::MAX,
    ensures
        r.wf(),
        r.rows == size,
        r.cols == size,
{
    proof {
        assert(0 <= size as int * size as int) by (nonlinear_arith);
    }
    let rc: usize = size * size;
    let zeroed: Vec<u8> = zero_bytes(rc * 3);
    let image = SharedImage::new(zeroed);
    run_strided_workers(&image, threads, size);
    let data = image.snapshot();
    PixelBuffer { data, rows: size, cols: size }
}

} // verus!
