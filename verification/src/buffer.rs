//! The pixel container: a `rows × cols × 3` block of 8-bit samples, stored
//! flat in row-major order with the channel index fastest.

use vstd::prelude::*;

verus! {

/// A three-channel image buffer. A cell `(i, j, k)` lives at flat index
/// `(i·cols + j)·3 + k`.
pub struct PixelBuffer {
    pub data: Vec<u8>,
    pub rows: usize,
    pub cols: usize,
}

impl PixelBuffer {
    /// A complete buffer holds exactly one byte per cell: `rows·cols·3` in all.
    pub open spec fn wf(self) -> bool {
        self.data@.len() == self.rows * self.cols * 3
    }

    /// The sample at row `i`, column `j`, channel `k`.
    pub open spec fn sample(self, i: int, j: int, k: int) -> u8 {
        self.data@[(i * self.cols + j) * 3 + k]
    }

    /// Read one sample of a complete buffer.
    pub fn get(&self, i: usize, j: usize, k: usize) -> (v: u8)
        requires
            self.wf(),
            i < self.rows,
            j < self.cols,
            k < 3,
        ensures
            v == self.sample(i as int, j as int, k as int),
    {
        let _len: usize = self.data.len();
        proof {
            lemma_cell_index(self.rows as int, self.cols as int, i as int, j as int, k as int);
        }
        self.data[(i * self.cols + j) * 3 + k]
    }

    /// Read one byte of the flat storage.
    pub fn get_flat(&self, n: usize) -> (v: u8)
        requires
            n < self.data@.len(),
        ensures
            v == self.data@[n as int],
    {
        self.data[n]
    }

    /// The flat bytes of the buffer, row-major, channel fastest.
    pub fn bytes(&self) -> (v: &Vec<u8>)
        ensures
            v@ == self.data@,
    {
        &self.data
    }
}

/// Whatever engine filled it, a buffer has exactly three channels — its
/// cells are `rows·cols·3` bytes — and every sample lies in `[0, 255]`.
pub proof fn lemma_sample_range(b: PixelBuffer, i: int, j: int, k: int)
    requires
        b.wf(),
        0 <= i < b.rows,
        0 <= j < b.cols,
        0 <= k < 3,
    ensures
        b.data@.len() == b.rows * b.cols * 3,
        0 <= b.sample(i, j, k) <= 255,
{
}

/// Every in-range cell maps to a flat index below `rows·cols·3`.
pub proof fn lemma_cell_index(rows: int, cols: int, i: int, j: int, k: int)
    by (nonlinear_arith)
    requires
        0 <= i < rows,
        0 <= j < cols,
        0 <= k < 3,
    ensures
        0 <= i * cols,
        0 <= (i * cols + j) * 3 + k < rows * cols * 3,
{
}

/// A zero-filled byte vector of length `n`.
pub fn zero_bytes(n: usize) -> (v: Vec<u8>)
    ensures
        v@.len() == n,
        forall|m: int| 0 <= m < n ==> v@[m] == 0,
{
    let mut v: Vec<u8> = Vec::new();
    let mut c: usize = 0;
    while c < n
        invariant
            c <= n,
            v@.len() == c,
            forall|m: int| 0 <= m < c ==> v@[m] == 0,
        decreases n - c,
    {
        v.push(0);
        c = c + 1;
    }
    v
}

} // verus!
