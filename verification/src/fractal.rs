//! The Mandelbrot engine: a deterministic escape-time rendering with
//! two-color gradient coloring. The viewport `x ∈ [-2, 1]`, `y ∈ [-1.5, 1.5]`
//! is mapped linearly onto the `size × size` grid; each pixel's coordinate is
//! iterated `z ← z² + c` from `z = 0`, up to 255 steps, stopping the first
//! time `|z|` exceeds 2. All arithmetic is fixed-point with `SCALE` units per
//! 1.0, truncated toward zero after each rescaling, so the rendering is a
//! pure function of `size`.

use vstd::prelude::*;
use vstd::arithmetic::div_mod::lemma_div_is_ordered;
use vstd::arithmetic::div_mod::lemma_div_nonincreasing;
use vstd::arithmetic::div_mod::lemma_div_pos_is_pos;
use vstd::arithmetic::div_mod::lemma_fundamental_div_mod;
use vstd::arithmetic::div_mod::lemma_mod_pos_bound;
use vstd::arithmetic::div_mod::lemma_multiply_divide_lt;
use crate::buffer::PixelBuffer;

verus! {

/// Fixed-point scale: this many units stand for 1.0 on the complex plane.
pub const SCALE: i64 = 16777216;

/// Truncating (toward zero) division of a fixed-point product by the scale,
/// as the narrowing after a fixed-point multiply performs it.
pub open spec fn sdiv_by_scale(a: int) -> int {
    if a >= 0 {
        a / (SCALE as int)
    } else {
        -((-a) / (SCALE as int))
    }
}

/// Real part of `z² + c` in fixed point.
pub open spec fn step_re(zx: int, zy: int, cx: int) -> int {
    sdiv_by_scale(zx * zx - zy * zy) + cx
}

/// Imaginary part of `z² + c` in fixed point.
pub open spec fn step_im(zx: int, zy: int, cy: int) -> int {
    sdiv_by_scale(2 * (zx * zy)) + cy
}

/// Squared magnitude of `z`, in squared scale units.
pub open spec fn norm_sq(zx: int, zy: int) -> int {
    zx * zx + zy * zy
}

/// `|z| > 2` in squared scale units.
pub open spec fn escaped(zx: int, zy: int) -> bool {
    norm_sq(zx, zy) > 4 * (SCALE as int) * (SCALE as int)
}

/// How many further iterations of `z ← z² + c` run before `|z|` exceeds 2,
/// capped at `fuel`: 0 once escaped, else one more than for the next `z`.
pub open spec fn escape_steps(zx: int, zy: int, cx: int, cy: int, fuel: nat) -> nat
    decreases fuel,
{
    if fuel == 0 {
        0
    } else if escaped(zx, zy) {
        0
    } else {
        1 + escape_steps(step_re(zx, zy, cx), step_im(zx, zy, cy), cx, cy, (fuel - 1) as nat)
    }
}

/// The viewport abscissa of column-of-rows index `i`: `-2 + 3·i/size`, in
/// scale units, the quotient truncated.
pub open spec fn spec_coord_x(size: int, i: int) -> int {
    -2 * (SCALE as int) + (3 * (SCALE as int) * i) / size
}

/// The viewport ordinate of index `j`: `-1.5 + 3·j/size` in scale units
/// (`25165824` is `1.5` in scale units), the quotient truncated.
pub open spec fn spec_coord_y(size: int, j: int) -> int {
    -25165824 + (3 * (SCALE as int) * j) / size
}

/// The escape count of pixel `(i, j)`: at most 255; exactly 255 means the
/// pixel is taken to lie in the set.
pub open spec fn mandel_count(size: int, i: int, j: int) -> nat {
    escape_steps(0, 0, spec_coord_x(size, i), spec_coord_y(size, j), 255)
}

/// The byte of channel `k` for a pixel of the given escape count: black for
/// an interior pixel. Otherwise the gradient from start `(64, 0, 64)` toward
/// end `(255, 0, 255)` — a span of 191 on the red and blue channels, 0 on the
/// green — is blended by `count/255`, doubled for brightness, and clamped to
/// a byte.
pub open spec fn channel_value(count: nat, k: int) -> u8 {
    if count == 255 {
        0
    } else if k == 1 {
        0
    } else {
        let v = 2 * 64 + (2 * 191 * count) / 255;
        if v > 255 {
            255
        } else {
            v as u8
        }
    }
}

/// The byte the renderer owes cell `(i, j, k)`.
pub open spec fn mandel_sample(size: int, i: int, j: int, k: int) -> u8 {
    channel_value(mandel_count(size, i, j), k)
}

/// A complete, correct rendering for side length `size`: every cell holds
/// exactly the byte the escape-time rule and the gradient assign it.
pub open spec fn is_mandelbrot(b: PixelBuffer, size: int) -> bool {
    &&& b.wf()
    &&& b.rows == size
    &&& b.cols == size
    &&& forall|i: int, j: int, k: int|
        0 <= i < size && 0 <= j < size && 0 <= k < 3 ==> #[trigger] b.sample(i, j, k)
            == mandel_sample(size, i, j, k)
}

/// Dividing by the scale keeps magnitudes within the divided bound.
proof fn lemma_sdiv_bound(a: int, b: int)
    requires
        0 <= b,
        -b <= a <= b,
    ensures
        -(b / (SCALE as int)) <= sdiv_by_scale(a) <= b / (SCALE as int),
{
    if a >= 0 {
        lemma_div_is_ordered(a, b, SCALE as int);
        lemma_div_pos_is_pos(a, SCALE as int);
    } else {
        lemma_div_is_ordered(-a, b, SCALE as int);
        lemma_div_pos_is_pos(-a, SCALE as int);
    }
}

/// Truncating division of a fixed-point value by the scale.
fn scale_div(a: i64) -> (r: i64)
    requires
        -0x4000_0000_0000_0000 <= a <= 0x4000_0000_0000_0000,
    ensures
        r == sdiv_by_scale(a as int),
{
    proof {
        if a >= 0 {
            lemma_div_nonincreasing(a as int, SCALE as int);
            lemma_div_pos_is_pos(a as int, SCALE as int);
        } else {
            lemma_div_nonincreasing(-(a as int), SCALE as int);
            lemma_div_pos_is_pos(-(a as int), SCALE as int);
        }
    }
    if a >= 0 {
        ((a as u64) / (SCALE as u64)) as i64
    } else {
        let m: i64 = -a;
        -(((m as u64) / (SCALE as u64)) as i64)
    }
}

/// Escape-time iteration: run `z ← z² + c` from `z = 0` for at most 255
/// steps, stopping the first time `|z|` exceeds 2.
#[verifier::loop_isolation(false)]
fn escape_count(cx: i64, cy: i64) -> (count: u32)
    requires
        -2 * SCALE <= cx <= SCALE,
        -2 * SCALE <= cy <= 2 * SCALE,
    ensures
        count == escape_steps(0, 0, cx as int, cy as int, 255),
        count <= 255,
{
    let mut zx: i64 = 0;
    let mut zy: i64 = 0;
    let mut count: u32 = 0;
    while count < 255
        invariant
            count <= 255,
            -8 * SCALE <= zx <= 8 * SCALE,
            -8 * SCALE <= zy <= 8 * SCALE,
            escape_steps(0, 0, cx as int, cy as int, 255) == count + escape_steps(
                zx as int,
                zy as int,
                cx as int,
                cy as int,
                (255 - count) as nat,
            ),
        decreases 255 - count,
    {
        proof {
            assert(0 <= zx as int * zx as int <= 64 * (SCALE as int) * (SCALE as int) && 0 <= zy
                as int * zy as int <= 64 * (SCALE as int) * (SCALE as int) && -64 * (SCALE as int)
                * (SCALE as int) <= zx as int * zy as int <= 64 * (SCALE as int) * (SCALE as int))
                by (nonlinear_arith)
                requires
                    -8 * (SCALE as int) <= zx as int <= 8 * (SCALE as int),
                    -8 * (SCALE as int) <= zy as int <= 8 * (SCALE as int),
            ;
        }
        let xx: i64 = zx * zx;
        let yy: i64 = zy * zy;
        if xx + yy > 4 * SCALE * SCALE {
            assert(escape_steps(zx as int, zy as int, cx as int, cy as int, (255 - count) as nat)
                == 0);
            return count;
        }
        let xy: i64 = zx * zy;
        proof {
            assert(-(zx as int * zx as int + zy as int * zy as int) <= 2 * (zx as int * zy as int)
                <= zx as int * zx as int + zy as int * zy as int) by (nonlinear_arith);
            lemma_sdiv_bound(xx as int - yy as int, 4 * (SCALE as int) * (SCALE as int));
            lemma_sdiv_bound(2 * (xy as int), 4 * (SCALE as int) * (SCALE as int));
        }
        let nzx: i64 = scale_div(xx - yy) + cx;
        let nzy: i64 = scale_div(2 * xy) + cy;
        proof {
            assert(nzx as int == step_re(zx as int, zy as int, cx as int));
            assert(nzy as int == step_im(zx as int, zy as int, cy as int));
            assert(escape_steps(zx as int, zy as int, cx as int, cy as int, (255 - count) as nat)
                == 1 + escape_steps(
                nzx as int,
                nzy as int,
                cx as int,
                cy as int,
                (255 - (count + 1)) as nat,
            ));
        }
        zx = nzx;
        zy = nzy;
        count = count + 1;
    }
    assert(escape_steps(zx as int, zy as int, cx as int, cy as int, 0) == 0);
    count
}

/// The viewport abscissa of pixel row `i`, in scale units.
fn coord_x(size: usize, i: usize) -> (cx: i64)
    requires
        1 <= size,
        i < size,
        size * size * 3 <= usize::MAX,
    ensures
        -2 * SCALE <= cx <= SCALE,
        cx == spec_coord_x(size as int, i as int),
{
    let q: i64 = scaled_span_quotient(size, i);
    -2 * SCALE + q
}

/// The viewport ordinate of pixel column `j`, in scale units.
fn coord_y(size: usize, j: usize) -> (cy: i64)
    requires
        1 <= size,
        j < size,
        size * size * 3 <= usize::MAX,
    ensures
        -2 * SCALE <= cy <= 2 * SCALE,
        cy == spec_coord_y(size as int, j as int),
{
    let q: i64 = scaled_span_quotient(size, j);
    -25165824 + q
}

/// The shared linear part of both viewport mappings: `3·SCALE·n / size`,
/// truncated; the viewport spans 3.0 along each axis.
fn scaled_span_quotient(size: usize, n: usize) -> (q: i64)
    requires
        1 <= size,
        n < size,
        size * size * 3 <= usize::MAX,
    ensures
        0 <= q < 3 * SCALE,
        q == (3 * (SCALE as int) * (n as int)) / (size as int),
{
    proof {
        assert((size as int) < 4294967296) by (nonlinear_arith)
            requires
                size as int * size as int * 3 <= 0xFFFF_FFFF_FFFF_FFFF,
                0 <= size as int,
        ;
        assert(3 * (SCALE as int) * (n as int) < size as int * (3 * (SCALE as int)))
            by (nonlinear_arith)
            requires
                n < size,
                (size as int) < 4294967296,
        ;
        lemma_div_pos_is_pos(3 * (SCALE as int) * (n as int), size as int);
        lemma_multiply_divide_lt(3 * (SCALE as int) * (n as int), size as int, 3 * (SCALE as int));
    }
    let num: i64 = 3 * SCALE * (n as i64);
    ((num as u64) / (size as u64)) as i64
}

/// The gradient color of a pixel with the given escape count, channel by
/// channel: interior pixels are black; others blend start toward end by
/// `count/255`, doubled for brightness and clamped to a byte.
fn pixel_color(count: u32) -> (rgb: (u8, u8, u8))
    requires
        count <= 255,
    ensures
        rgb.0 == channel_value(count as nat, 0),
        rgb.1 == channel_value(count as nat, 1),
        rgb.2 == channel_value(count as nat, 2),
{
    if count == 255 {
        (0, 0, 0)
    } else {
        let scaled: u32 = (382 * count) / 255;
        let v: u32 = 128 + scaled;
        let b: u8 = if v > 255 {
            255
        } else {
            v as u8
        };
        (b, 0, b)
    }
}

/// Cells earlier in row-major order have strictly smaller flat indexes.
proof fn lemma_cell_order(size: int, p: int, q: int, k: int, i: int, j: int)
    by (nonlinear_arith)
    requires
        0 <= p < size,
        0 <= q < size,
        0 <= k < 3,
        0 <= i < size,
        0 <= j <= size,
        p < i || (p == i && q < j),
    ensures
        0 <= (p * size + q) * 3 + k,
        (p * size + q) * 3 + k < (i * size + j) * 3,
{
}

/// Mandelbrot engine: a deterministic `size × size × 3` rendering, every
/// cell exactly as the escape-time rule and the gradient assign it.
#[verifier::loop_isolation(false)]
pub fn generate_mandelbrot(size: usize) -> (r: PixelBuffer)
    requires
        1 <= size,
        size * size * 3 <= usize::MAX,
    ensures
        is_mandelbrot(r, size as int),
{
    let mut data: Vec<u8> = Vec::new();
    let mut i: usize = 0;
    while i < size
        invariant
            i <= size,
            data@.len() == i as int * (size as int) * 3,
            forall|p: int, q: int, k: int|
                0 <= p < i && 0 <= q < size && 0 <= k < 3 ==> #[trigger] data@[(p * (size as int)
                    + q) * 3 + k] == mandel_sample(size as int, p, q, k),
        decreases size - i,
    {
        let mut j: usize = 0;
        while j < size
            invariant
                i < size,
                j <= size,
                data@.len() == (i as int * (size as int) + j as int) * 3,
                forall|p: int, q: int, k: int|
                    (0 <= p < i && 0 <= q < size && 0 <= k < 3) || (p == i && 0 <= q < j && 0 <= k
                        < 3) ==> #[trigger] data@[(p * (size as int) + q) * 3 + k]
                        == mandel_sample(size as int, p, q, k),
            decreases size - j,
        {
            let cx: i64 = coord_x(size, i);
            let cy: i64 = coord_y(size, j);
            let count: u32 = escape_count(cx, cy);
            let rgb: (u8, u8, u8) = pixel_color(count);
            data.push(rgb.0);
            data.push(rgb.1);
            data.push(rgb.2);
            proof {
                assert forall|p: int, q: int, k: int|
                    (0 <= p < i && 0 <= q < size && 0 <= k < 3) || (p == i && 0 <= q < j + 1 && 0
                        <= k < 3) implies #[trigger] data@[(p * (size as int) + q) * 3 + k]
                    == mandel_sample(size as int, p, q, k) by {
                    if p == i && q == j {
                        assert(data@[(p * (size as int) + q) * 3 + k] == if k == 0 {
                            rgb.0
                        } else if k == 1 {
                            rgb.1
                        } else {
                            rgb.2
                        });
                    } else {
                        lemma_cell_order(size as int, p, q, k, i as int, j as int);
                    }
                }
            }
            j = j + 1;
        }
        proof {
            assert((i as int + 1) * (size as int) * 3 == (i as int * (size as int) + size as int)
                * 3) by (nonlinear_arith);
        }
        i = i + 1;
    }
    let r = PixelBuffer { data, rows: size, cols: size };
    assert forall|i2: int, j2: int, k2: int|
        0 <= i2 < size && 0 <= j2 < size && 0 <= k2 < 3 implies #[trigger] r.sample(i2, j2, k2)
        == mandel_sample(size as int, i2, j2, k2) by {
    }
    r
}

/// The renderer is deterministic: two complete renderings for the same side
/// length hold byte-identical data.
pub proof fn lemma_mandelbrot_deterministic(a: PixelBuffer, b: PixelBuffer, size: int)
    requires
        is_mandelbrot(a, size),
        is_mandelbrot(b, size),
    ensures
        a.data@ =~= b.data@,
{
    assert forall|n: int| 0 <= n < a.data@.len() implies a.data@[n] == b.data@[n] by {
        assert(size != 0) by (nonlinear_arith)
            requires
                size * size * 3 > 0,
        ;
        let c3 = size * 3;
        let i = n / c3;
        let rem = n % c3;
        let j = rem / 3;
        let k = rem % 3;
        lemma_fundamental_div_mod(n, c3);
        lemma_mod_pos_bound(n, c3);
        lemma_fundamental_div_mod(rem, 3);
        lemma_mod_pos_bound(rem, 3);
        lemma_div_pos_is_pos(n, c3);
        lemma_div_pos_is_pos(rem, 3);
        assert(n < c3 * size) by (nonlinear_arith)
            requires
                n < size * size * 3,
                c3 == size * 3,
        ;
        lemma_multiply_divide_lt(n, c3, size);
        lemma_multiply_divide_lt(rem, 3, size);
        assert(n == (i * size + j) * 3 + k) by (nonlinear_arith)
            requires
                n == c3 * i + rem,
                rem == 3 * j + k,
                c3 == size * 3,
        ;
        assert(a.sample(i, j, k) == mandel_sample(size, i, j, k));
        assert(b.sample(i, j, k) == mandel_sample(size, i, j, k));
    }
}

} // verus!
