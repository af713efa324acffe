//! Alpha keying: a pixel's opacity follows its distance from a reference
//! colour.

use vstd::prelude::*;
use crate::buffer::{PixelBuffer, Rgba};

verus! {

/// The absolute difference of two channel values.
pub open spec fn channel_gap(a: u8, b: u8) -> int {
    if a >= b {
        a - b
    } else {
        b - a
    }
}

/// The distance between two colours: the greater of the gaps of their red
/// and of their green channels. Blue and alpha take no part.
pub open spec fn color_distance(red: u8, green: u8, reference: Rgba) -> int {
    let r = channel_gap(red, reference.red);
    let g = channel_gap(green, reference.green);
    if r >= g {
        r
    } else {
        g
    }
}

/// The linear ramp from alpha 0 at the transparency threshold to alpha 255
/// at the opacity threshold, rounded towards zero and held to `0..=255`.
/// Where both thresholds are equal the ramp is a step: 0 below the
/// threshold, 255 from it on.
pub open spec fn alpha_ramp(distance: int, opacity: int, transparency: int) -> int {
    let span = opacity - transparency;
    let rise = (distance - transparency) * 255;
    if span == 0 {
        if distance < transparency {
            0
        } else {
            255
        }
    } else {
        let n = if span > 0 {
            rise
        } else {
            -rise
        };
        let m = if span > 0 {
            span
        } else {
            -span
        };
        if n <= 0 {
            0
        } else if n / m >= 255 {
            255
        } else {
            n / m
        }
    }
}

/// The alpha that keying gives a pixel with the given red and green.
pub open spec fn keyed_alpha(
    red: u8,
    green: u8,
    reference: Rgba,
    opacity: u8,
    transparency: u8,
) -> int {
    alpha_ramp(color_distance(red, green, reference), opacity as int, transparency as int)
}

/// An image's bytes after keying: every fourth byte is the keyed alpha of
/// the pixel it closes, every other byte is unchanged.
pub open spec fn alpha_keyed(
    pixels: Seq<u8>,
    reference: Rgba,
    opacity: u8,
    transparency: u8,
) -> Seq<u8> {
    Seq::new(
        pixels.len(),
        |i: int|
            if i % 4 == 3 {
                keyed_alpha(pixels[i - 3], pixels[i - 2], reference, opacity, transparency) as u8
            } else {
                pixels[i]
            },
    )
}

/// The ramp stays within a byte's range.
pub proof fn lemma_alpha_ramp_range(distance: int, opacity: int, transparency: int)
    ensures
        0 <= alpha_ramp(distance, opacity, transparency) <= 255,
{
    let span = opacity - transparency;
    let rise = (distance - transparency) * 255;
    if span != 0 {
        let n = if span > 0 {
            rise
        } else {
            -rise
        };
        let m = if span > 0 {
            span
        } else {
            -span
        };
        if n > 0 {
            assert(n / m >= 0) by (nonlinear_arith)
                requires
                    n > 0,
                    m > 0,
            ;
        }
    }
}

/// With transparency at 0 and opacity at 255 the alpha is the distance.
pub proof fn lemma_alpha_ramp_identity(distance: int)
    requires
        0 <= distance <= 255,
    ensures
        alpha_ramp(distance, 255, 0) == distance,
{
}

/// Keying an image that was keyed with the same reference and thresholds
/// changes nothing.
pub proof fn lemma_alpha_keying_idempotent(
    pixels: Seq<u8>,
    reference: Rgba,
    opacity: u8,
    transparency: u8,
)
    ensures
        alpha_keyed(alpha_keyed(pixels, reference, opacity, transparency), reference, opacity,
            transparency) == alpha_keyed(pixels, reference, opacity, transparency),
{
    let once = alpha_keyed(pixels, reference, opacity, transparency);
    let twice = alpha_keyed(once, reference, opacity, transparency);
    assert forall|i: int| 0 <= i < once.len() implies twice[i] == once[i] by {
        if i % 4 == 3 {
            assert((i - 3) % 4 == 0);
            assert((i - 2) % 4 == 1);
            assert(once[i - 3] == pixels[i - 3]);
            assert(once[i - 2] == pixels[i - 2]);
        }
    }
    assert(twice =~= once);
}

/// The distance between two colours, over red and green only.
pub fn rgb_distance(color_1: Rgba, color_2: Rgba) -> (d: u8)
    ensures
        d == color_distance(color_1.red, color_1.green, color_2),
{
    let r: u8 = if color_1.red >= color_2.red {
        color_1.red - color_2.red
    } else {
        color_2.red - color_1.red
    };
    let g: u8 = if color_1.green >= color_2.green {
        color_1.green - color_2.green
    } else {
        color_2.green - color_1.green
    };
    if r >= g {
        r
    } else {
        g
    }
}

/// The same colour with its alpha keyed against `compare_to_color`.
pub fn color_to_alpha(
    color_to_change: Rgba,
    compare_to_color: Rgba,
    opacity_threshold: u8,
    transparency_threshold: u8,
) -> (keyed: Rgba)
    ensures
        keyed.red == color_to_change.red,
        keyed.green == color_to_change.green,
        keyed.blue == color_to_change.blue,
        keyed.alpha == keyed_alpha(
            color_to_change.red,
            color_to_change.green,
            compare_to_color,
            opacity_threshold,
            transparency_threshold,
        ),
{
    let distance: u8 = rgb_distance(color_to_change, compare_to_color);
    let alpha: u8 = if opacity_threshold == transparency_threshold {
        if distance < transparency_threshold {
            0
        } else {
            255
        }
    } else if opacity_threshold > transparency_threshold {
        if distance <= transparency_threshold {
            0
        } else {
            let n: u32 = ((distance - transparency_threshold) as u32) * 255;
            let m: u32 = (opacity_threshold - transparency_threshold) as u32;
            let q: u32 = n / m;
            if q >= 255 {
                255
            } else {
                q as u8
            }
        }
    } else {
        if distance >= transparency_threshold {
            0
        } else {
            let n: u32 = ((transparency_threshold - distance) as u32) * 255;
            let m: u32 = (transparency_threshold - opacity_threshold) as u32;
            let q: u32 = n / m;
            if q >= 255 {
                255
            } else {
                q as u8
            }
        }
    };
    Rgba {
        red: color_to_change.red,
        green: color_to_change.green,
        blue: color_to_change.blue,
        alpha,
    }
}

/// Keys every pixel of the image against `compare_to_color`: alpha follows
/// the distance of red and green from the reference, the colour channels
/// stay as they are.
pub fn image_color_to_alpha(
    image_to_change: &mut PixelBuffer,
    compare_to_color: Rgba,
    opacity_threshold: u8,
    transparency_threshold: u8,
)
    ensures
        final(image_to_change).same_size(old(image_to_change)),
        final(image_to_change)@.pixels == alpha_keyed(
            old(image_to_change)@.pixels,
            compare_to_color,
            opacity_threshold,
            transparency_threshold,
        ),
{
    let n: usize = image_to_change.data.len();
    let mut i: usize = 0;
    while n - i >= 4
        invariant
            i <= n,
            i % 4 == 0,
            image_to_change.data@.len() == n,
            old(image_to_change).data@.len() == n,
            image_to_change.same_size(old(image_to_change)),
            forall|k: int|
                0 <= k < i ==> image_to_change@.pixels[k] == alpha_keyed(
                    old(image_to_change)@.pixels,
                    compare_to_color,
                    opacity_threshold,
                    transparency_threshold,
                )[k],
            forall|k: int| i <= k < n ==> image_to_change@.pixels[k] == old(image_to_change)@.pixels[k],
        decreases n - i,
    {
        let pixel = Rgba {
            red: image_to_change.data[i],
            green: image_to_change.data[i + 1],
            blue: image_to_change.data[i + 2],
            alpha: image_to_change.data[i + 3],
        };
        let keyed = color_to_alpha(
            pixel,
            compare_to_color,
            opacity_threshold,
            transparency_threshold,
        );
        image_to_change.data.set(i + 3, keyed.alpha);
        proof {
            let before = old(image_to_change)@.pixels;
            let after = alpha_keyed(
                before,
                compare_to_color,
                opacity_threshold,
                transparency_threshold,
            );
            assert(pixel.red == before[i as int]);
            assert(pixel.green == before[i + 1]);
            assert(after[i + 3] == keyed.alpha);
            assert(after[i as int] == before[i as int]);
            assert(after[i + 1] == before[i + 1]);
            assert(after[i + 2] == before[i + 2]);
        }
        i += 4;
    }
    assert(image_to_change@.pixels =~= alpha_keyed(
        old(image_to_change)@.pixels,
        compare_to_color,
        opacity_threshold,
        transparency_threshold,
    ));
}

} // verus!
