//! The parameter sweep: the blur radii and darken levels it runs through,
//! and the size at which the source image enters it.

use vstd::prelude::*;
use crate::buffer::lemma_area_bound;
use crate::edge::{lemma_sqrt_floor_exists, lemma_square_monotonic, sqrt_floor, sqrt_floor_below};

verus! {

/// The blur radius of row `index`: `min_blur_radius + index * blur_step`.
pub open spec fn blur_radius_at(min_blur_radius: int, blur_step: int, index: int) -> int {
    min_blur_radius + index * blur_step
}

/// The darken level of column `index`:
/// `min_darken_number + index * darken_step`.
pub open spec fn darken_level_at(min_darken_number: int, darken_step: int, index: int) -> int {
    min_darken_number + index * darken_step
}

/// Every blur radius of the sweep can be handed to the blur filter: none is
/// negative and each fits in an `i32`.
pub open spec fn radii_valid(min_blur_radius: int, blur_step: int, blur_number: int) -> bool {
    forall|i: int|
        0 <= i < blur_number ==> 0 <= #[trigger] blur_radius_at(min_blur_radius, blur_step, i)
            <= i32::MAX
}

/// Every darken level of the sweep fits in a `u8`.
pub open spec fn levels_valid(min_darken_number: int, darken_step: int, darken_number: int) -> bool {
    forall|j: int|
        0 <= j < darken_number ==> #[trigger] darken_level_at(min_darken_number, darken_step, j)
            <= u8::MAX
}

/// The six numbers that span a sweep: where the blur radii and the darken
/// levels start, how far they step and how many there are.
#[derive(Clone, Copy, Debug, PartialEq, Eq, Structural)]
pub struct Plan {
    pub min_blur_radius: i32,
    pub blur_step: i32,
    pub blur_number: u8,
    pub min_darken_number: u8,
    pub darken_step: u8,
    pub darken_number: u8,
}

impl Plan {
    /// The blur radius of row `row`.
    pub open spec fn radius(self, row: int) -> int {
        blur_radius_at(self.min_blur_radius as int, self.blur_step as int, row)
    }

    /// The darken level of column `column`.
    pub open spec fn level(self, column: int) -> int {
        darken_level_at(self.min_darken_number as int, self.darken_step as int, column)
    }

    /// The number of variants: one for each pair of a row and a column.
    pub open spec fn count(self) -> int {
        self.blur_number * self.darken_number
    }

    /// Every blur radius can be handed to the blur filter.
    pub open spec fn has_valid_radii(self) -> bool {
        radii_valid(self.min_blur_radius as int, self.blur_step as int, self.blur_number as int)
    }

    /// Every darken level fits in a `u8`.
    pub open spec fn has_valid_levels(self) -> bool {
        levels_valid(
            self.min_darken_number as int,
            self.darken_step as int,
            self.darken_number as int,
        )
    }
}

/// A sequence with a constant step lies between its first and its last
/// term.
pub proof fn lemma_step_between(first: int, step: int, last: int, index: int)
    requires
        0 <= index <= last,
    ensures
        step >= 0 ==> first <= first + index * step <= first + last * step,
        step <= 0 ==> first + last * step <= first + index * step <= first,
{
    assert(step >= 0 ==> 0 <= index * step <= last * step) by (nonlinear_arith)
        requires
            0 <= index <= last,
    ;
    assert(step <= 0 ==> last * step <= index * step <= 0) by (nonlinear_arith)
        requires
            0 <= index <= last,
    ;
}

/// Whether every blur radius of the sweep can be handed to the blur filter.
pub fn check_radii(min_blur_radius: i32, blur_step: i32, blur_number: u8) -> (valid: bool)
    ensures
        valid == radii_valid(min_blur_radius as int, blur_step as int, blur_number as int),
{
    if blur_number == 0 {
        return true;
    }
    let last_index: i64 = (blur_number - 1) as i64;
    assert(-0x8000_0000 * 254 <= last_index * blur_step <= 0x8000_0000 * 254) by (nonlinear_arith)
        requires
            0 <= last_index <= 254,
            -0x8000_0000 <= blur_step < 0x8000_0000,
    ;
    let last: i64 = (min_blur_radius as i64) + last_index * (blur_step as i64);
    let valid: bool = min_blur_radius >= 0 && 0 <= last && last <= 0x7fff_ffff;
    proof {
        let min = min_blur_radius as int;
        let step = blur_step as int;
        assert(blur_radius_at(min, step, 0) == min);
        assert(blur_radius_at(min, step, last_index as int) == last);
        if valid {
            assert forall|i: int| 0 <= i < blur_number implies 0 <= #[trigger] blur_radius_at(
                min,
                step,
                i,
            ) <= i32::MAX by {
                lemma_step_between(min, step, last_index as int, i);
            }
        }
    }
    valid
}

/// Whether every darken level of the sweep fits in a `u8`.
pub fn check_levels(min_darken_number: u8, darken_step: u8, darken_number: u8) -> (valid: bool)
    ensures
        valid == levels_valid(
            min_darken_number as int,
            darken_step as int,
            darken_number as int,
        ),
{
    if darken_number == 0 {
        return true;
    }
    let last_index: u32 = (darken_number - 1) as u32;
    assert(last_index * darken_step <= 254 * 255) by (nonlinear_arith)
        requires
            0 <= last_index <= 254,
            0 <= darken_step <= 255,
    ;
    let last: u32 = (min_darken_number as u32) + last_index * (darken_step as u32);
    let valid: bool = last <= 255;
    proof {
        let min = min_darken_number as int;
        let step = darken_step as int;
        assert(darken_level_at(min, step, last_index as int) == last);
        if valid {
            assert forall|j: int| 0 <= j < darken_number implies #[trigger] darken_level_at(
                min,
                step,
                j,
            ) <= u8::MAX by {
                lemma_step_between(min, step, last_index as int, j);
            }
        }
    }
    valid
}

/// The blur radius of row `index`.
pub fn blur_radius(min_blur_radius: i32, blur_step: i32, index: u8) -> (radius: i32)
    requires
        i32::MIN <= blur_radius_at(min_blur_radius as int, blur_step as int, index as int)
            <= i32::MAX,
    ensures
        radius == blur_radius_at(min_blur_radius as int, blur_step as int, index as int),
{
    assert(-0x8000_0000 * 255 <= index * blur_step <= 0x8000_0000 * 255) by (nonlinear_arith)
        requires
            0 <= index <= 255,
            -0x8000_0000 <= blur_step < 0x8000_0000,
    ;
    let radius: i64 = (min_blur_radius as i64) + (index as i64) * (blur_step as i64);
    radius as i32
}

/// The darken level of column `index`.
pub fn darken_level(min_darken_number: u8, darken_step: u8, index: u8) -> (level: u8)
    requires
        darken_level_at(min_darken_number as int, darken_step as int, index as int) <= u8::MAX,
    ensures
        level == darken_level_at(min_darken_number as int, darken_step as int, index as int),
{
    assert(index * darken_step <= 255 * 255) by (nonlinear_arith)
        requires
            0 <= index <= 255,
            0 <= darken_step <= 255,
    ;
    let level: u32 = (min_darken_number as u32) + (index as u32) * (darken_step as u32);
    level as u8
}

/// One side of the image after scaling both sides by the square root of
/// `target_area / (side * other_side)`, rounded down: the root of
/// `side * target_area / other_side`.
pub open spec fn scaled_side(side: int, other_side: int, target_area: int) -> int {
    sqrt_floor((side * target_area) / other_side)
}

/// The size at which an image enters the sweep: its own where its area is
/// within the target's, else both sides scaled down by the same factor so
/// that the area comes to the target's.
pub open spec fn sweep_size(width: int, height: int, target_width: int, target_height: int) -> (
    int,
    int,
) {
    let target_area = target_width * target_height;
    if width * height > target_area {
        (scaled_side(width, height, target_area), scaled_side(height, width, target_area))
    } else {
        (width, height)
    }
}

/// The scaled side `s` of a side `a` beside a side `b`, for a target area
/// `t` below `a * b`: `s * s * b <= a * t`, and `s < a`.
pub proof fn lemma_scaled_side_bound(side: int, other_side: int, target_area: int)
    requires
        1 <= side,
        1 <= other_side,
        0 <= target_area < side * other_side,
    ensures
        0 <= scaled_side(side, other_side, target_area) < side,
        scaled_side(side, other_side, target_area) * scaled_side(side, other_side, target_area)
            * other_side <= side * target_area,
        0 <= (side * target_area) / other_side < side * side,
{
    let n = side * target_area;
    let q = n / other_side;
    let s = scaled_side(side, other_side, target_area);
    assert(0 <= n < side * side * other_side) by (nonlinear_arith)
        requires
            n == side * target_area,
            1 <= side,
            0 <= target_area < side * other_side,
    ;
    assert(0 <= q && q * other_side <= n && q < side * side) by (nonlinear_arith)
        requires
            q == n / other_side,
            1 <= other_side,
            0 <= n < side * side * other_side,
    ;
    lemma_sqrt_floor_exists(q);
    if s >= side {
        lemma_square_monotonic(side, s);
    }
    assert(s * s * other_side <= q * other_side) by (nonlinear_arith)
        requires
            s * s <= q,
            1 <= other_side,
    ;
}

/// Scaling does not take the area above the target's: where the image's
/// area exceeds the target area, the area of the size at which it enters
/// the sweep does not.
pub proof fn lemma_sweep_size_within_target(
    width: int,
    height: int,
    target_width: int,
    target_height: int,
)
    requires
        0 <= width,
        0 <= height,
        0 <= target_width,
        0 <= target_height,
        width * height > target_width * target_height,
    ensures
        ({
            let (w, h) = sweep_size(width, height, target_width, target_height);
            0 <= w <= width && 0 <= h <= height && w * h <= target_width * target_height
        }),
{
    let t = target_width * target_height;
    assert(0 <= t) by (nonlinear_arith)
        requires
            t == target_width * target_height,
            0 <= target_width,
            0 <= target_height,
    ;
    assert(width >= 1 && height >= 1) by (nonlinear_arith)
        requires
            0 <= width,
            0 <= height,
            width * height > 0,
    ;
    let w = scaled_side(width, height, t);
    let h = scaled_side(height, width, t);
    lemma_scaled_side_bound(width, height, t);
    assert(height * width == width * height) by (nonlinear_arith);
    lemma_scaled_side_bound(height, width, t);
    let p = w * h;
    assert(p * p * (width * height) <= t * t * (width * height)) by (nonlinear_arith)
        requires
            p == w * h,
            0 <= w,
            0 <= h,
            w * w * height <= width * t,
            h * h * width <= height * t,
            0 <= t,
            1 <= width,
            1 <= height,
    ;
    assert(p <= t) by (nonlinear_arith)
        requires
            p * p * (width * height) <= t * t * (width * height),
            width * height >= 1,
            0 <= p,
            0 <= t,
    ;
}

/// An image whose area is within the target's enters the sweep at its own
/// size.
pub proof fn lemma_sweep_size_unchanged(
    width: int,
    height: int,
    target_width: int,
    target_height: int,
)
    requires
        width * height <= target_width * target_height,
    ensures
        sweep_size(width, height, target_width, target_height) == (width, height),
{
}

/// The size at which an image of the given size enters a sweep with the
/// given target size.
pub fn target_dimensions(width: u32, height: u32, target_size: (u32, u32)) -> (size: (u32, u32))
    ensures
        (size.0 as int, size.1 as int) == sweep_size(
            width as int,
            height as int,
            target_size.0 as int,
            target_size.1 as int,
        ),
        size.0 <= width,
        size.1 <= height,
        width * height > target_size.0 * target_size.1 ==> size.0 < width && size.1 < height
            && size.0 * size.1 <= target_size.0 * target_size.1,
{
    proof {
        lemma_area_bound(width as int, height as int);
        lemma_area_bound(target_size.0 as int, target_size.1 as int);
    }
    let target_area: u64 = (target_size.0 as u64) * (target_size.1 as u64);
    let current_area: u64 = (width as u64) * (height as u64);
    if current_area > target_area {
        proof {
            assert(width >= 1 && height >= 1) by (nonlinear_arith)
                requires
                    width * height > 0,
                    0 <= width,
                    0 <= height,
            ;
            lemma_scaled_side_bound(width as int, height as int, target_area as int);
            lemma_scaled_side_bound(height as int, width as int, target_area as int);
            assert(width * target_area <= 0xffff_ffff * 0xffff_ffff_ffff_ffff) by (nonlinear_arith)
                requires
                    0 <= width <= 0xffff_ffff,
                    0 <= target_area <= 0xffff_ffff_ffff_ffff,
            ;
            assert(height * target_area <= 0xffff_ffff * 0xffff_ffff_ffff_ffff) by (nonlinear_arith)
                requires
                    0 <= height <= 0xffff_ffff,
                    0 <= target_area <= 0xffff_ffff_ffff_ffff,
            ;
            lemma_sweep_size_within_target(
                width as int,
                height as int,
                target_size.0 as int,
                target_size.1 as int,
            );
        }
        let new_width: u64 = sqrt_floor_below(
            ((width as u128) * (target_area as u128)) / (height as u128),
            width as u64,
        );
        let new_height: u64 = sqrt_floor_below(
            ((height as u128) * (target_area as u128)) / (width as u128),
            height as u64,
        );
        (new_width as u32, new_height as u32)
    } else {
        (width, height)
    }
}

} // verus!
