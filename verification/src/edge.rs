//! The edge field: the magnitude of two directional gradients, sample by
//! sample.

use vstd::prelude::*;
use crate::buffer::PixelBuffer;
use crate::error::LineartError;

verus! {

/// `r` is the square root of `n`, rounded down.
pub open spec fn is_sqrt_floor(n: int, r: int) -> bool {
    0 <= r && r * r <= n < (r + 1) * (r + 1)
}

/// The square root of a natural number, rounded down.
pub open spec fn sqrt_floor(n: int) -> int {
    choose|r: int| is_sqrt_floor(n, r)
}

/// Squaring keeps the order of natural numbers.
pub proof fn lemma_square_monotonic(a: int, b: int)
    requires
        0 <= a <= b,
    ensures
        a * a <= b * b,
{
    assert(a * a <= b * b) by (nonlinear_arith)
        requires
            0 <= a <= b,
    ;
}

/// A natural number has exactly one rounded-down square root.
pub proof fn lemma_sqrt_floor_unique(n: int, r: int)
    requires
        is_sqrt_floor(n, r),
    ensures
        sqrt_floor(n) == r,
{
    let s = sqrt_floor(n);
    assert(is_sqrt_floor(n, s));
    if s < r {
        lemma_square_monotonic(s + 1, r);
    } else if r < s {
        lemma_square_monotonic(r + 1, s);
    }
}

/// Every natural number has a rounded-down square root.
pub proof fn lemma_sqrt_floor_exists(n: int)
    requires
        0 <= n,
    ensures
        is_sqrt_floor(n, sqrt_floor(n)),
    decreases n,
{
    if n == 0 {
        assert(is_sqrt_floor(0, 0));
    } else {
        lemma_sqrt_floor_exists(n - 1);
        let r = sqrt_floor(n - 1);
        if (r + 1) * (r + 1) <= n {
            assert((r + 2) * (r + 2) > (r + 1) * (r + 1)) by (nonlinear_arith)
                requires
                    r >= 0,
            ;
            assert(is_sqrt_floor(n, r + 1));
        } else {
            assert(is_sqrt_floor(n, r));
        }
    }
}

/// The square root of `n`, rounded down, found by bisection below `bound`.
pub fn sqrt_floor_below(n: u128, bound: u64) -> (r: u64)
    requires
        n < bound * bound,
    ensures
        r < bound,
        is_sqrt_floor(n as int, r as int),
        r == sqrt_floor(n as int),
{
    let mut lo: u64 = 0;
    let mut hi: u64 = bound;
    while hi - lo > 1
        invariant
            lo < hi <= bound,
            lo * lo <= n < hi * hi,
        decreases hi - lo,
    {
        let mid: u64 = lo + (hi - lo) / 2;
        assert(mid * mid < 0x1_0000_0000_0000_0000 * 0x1_0000_0000_0000_0000) by (nonlinear_arith)
            requires
                0 <= mid < 0x1_0000_0000_0000_0000,
        ;
        let square: u128 = (mid as u128) * (mid as u128);
        if square <= n {
            lo = mid;
        } else {
            hi = mid;
        }
    }
    proof {
        lemma_sqrt_floor_unique(n as int, lo as int);
    }
    lo
}

/// The magnitude of a gradient with components `kx` and `ky`: the square
/// root of the sum of their squares, rounded down and held to a byte's
/// range.
pub open spec fn edge_magnitude(kx: int, ky: int) -> int {
    let root = sqrt_floor(kx * kx + ky * ky);
    if root > 255 {
        255
    } else {
        root
    }
}

/// The magnitude does not depend on the sign of either component.
pub proof fn lemma_magnitude_ignores_sign(kx: int, ky: int)
    ensures
        edge_magnitude(-kx, ky) == edge_magnitude(kx, ky),
        edge_magnitude(kx, -ky) == edge_magnitude(kx, ky),
        edge_magnitude(-kx, -ky) == edge_magnitude(kx, ky),
{
    assert((-kx) * (-kx) == kx * kx) by (nonlinear_arith);
    assert((-ky) * (-ky) == ky * ky) by (nonlinear_arith);
}

/// The magnitude of one sample of the two gradients.
pub fn magnitude(kx: u8, ky: u8) -> (m: u8)
    ensures
        m == edge_magnitude(kx as int, ky as int),
{
    let x: u32 = kx as u32;
    let y: u32 = ky as u32;
    assert(x * x <= 255 * 255 && y * y <= 255 * 255) by (nonlinear_arith)
        requires
            0 <= x <= 255,
            0 <= y <= 255,
    ;
    let sum: u32 = x * x + y * y;
    let root: u64 = sqrt_floor_below(sum as u128, 361);
    if root > 255 {
        255
    } else {
        root as u8
    }
}

/// The edge field of two gradient buffers: the magnitude of each pair of
/// samples, alpha included.
pub open spec fn edge_field(kx: Seq<u8>, ky: Seq<u8>) -> Seq<u8> {
    Seq::new(kx.len(), |i: int| edge_magnitude(kx[i] as int, ky[i] as int) as u8)
}

/// Combines a horizontal and a vertical gradient buffer into the edge
/// field, with the dimensions of the first. Buffers of different lengths
/// are refused.
pub fn combine_gradients(horizontal: &PixelBuffer, vertical: &PixelBuffer) -> (r: Result<
    PixelBuffer,
    LineartError,
>)
    ensures
        r is Ok <==> horizontal@.pixels.len() == vertical@.pixels.len(),
        r matches Ok(field) ==> field.same_size(horizontal) && field@.pixels == edge_field(
            horizontal@.pixels,
            vertical@.pixels,
        ),
        r matches Err(e) ==> e == (LineartError::GradientMismatch {
            horizontal: horizontal.data.len(),
            vertical: vertical.data.len(),
        }),
{
    let n: usize = horizontal.data.len();
    if vertical.data.len() != n {
        return Err(
            LineartError::GradientMismatch { horizontal: n, vertical: vertical.data.len() },
        );
    }
    let mut data: Vec<u8> = Vec::with_capacity(n);
    let mut i: usize = 0;
    while i < n
        invariant
            i <= n,
            n == horizontal.data.len(),
            n == vertical.data.len(),
            data@.len() == i,
            forall|k: int|
                0 <= k < i ==> data@[k] == edge_magnitude(
                    horizontal@.pixels[k] as int,
                    vertical@.pixels[k] as int,
                ) as u8,
        decreases n - i,
    {
        data.push(magnitude(horizontal.data[i], vertical.data[i]));
        i += 1;
    }
    assert(data@ =~= edge_field(horizontal@.pixels, vertical@.pixels));
    Ok(PixelBuffer { width: horizontal.width, height: horizontal.height, data })
}

} // verus!

