//! Darkening: multiply-blending a line drawing with its own original, pass
//! after pass.

use vstd::prelude::*;
use crate::buffer::PixelBuffer;
use crate::filters::{blend, blendable, blended};

verus! {

/// One multiply blend of `image` with `original`.
pub open spec fn multiplied(image: Seq<u8>, original: Seq<u8>, width: int, height: int) -> Seq<u8> {
    blended(image, original, width, height, "multiply"@)
}

/// `image` after `passes` multiply blends with `original`, one after the
/// other.
pub open spec fn darkened(
    image: Seq<u8>,
    original: Seq<u8>,
    width: int,
    height: int,
    passes: nat,
) -> Seq<u8>
    decreases passes,
{
    if passes == 0 {
        image
    } else {
        multiplied(
            darkened(image, original, width, height, (passes - 1) as nat),
            original,
            width,
            height,
        )
    }
}

/// No pass leaves the image as it is.
pub proof fn lemma_darkened_zero(image: Seq<u8>, original: Seq<u8>, width: int, height: int)
    ensures
        darkened(image, original, width, height, 0) == image,
{
}

/// Darkening in two rounds is darkening by the sum of their passes.
pub proof fn lemma_darkened_additive(
    image: Seq<u8>,
    original: Seq<u8>,
    width: int,
    height: int,
    first: nat,
    second: nat,
)
    ensures
        darkened(darkened(image, original, width, height, first), original, width, height, second)
            == darkened(image, original, width, height, first + second),
    decreases second,
{
    if second > 0 {
        lemma_darkened_additive(image, original, width, height, first, (second - 1) as nat);
    }
}

/// Applies `passes` multiply blends of `image` with `original`, in place.
pub fn darken(image: &mut PixelBuffer, original: &PixelBuffer, passes: u8)
    requires
        blendable(old(image), original),
    ensures
        final(image).same_size(old(image)),
        final(image).wf(),
        passes == 0 ==> final(image)@.pixels == old(image)@.pixels,
        final(image)@.pixels == darkened(
            old(image)@.pixels,
            original@.pixels,
            old(image).width as int,
            old(image).height as int,
            passes as nat,
        ),
{
    let mut done: u8 = 0;
    while done < passes
        invariant
            done <= passes,
            blendable(image, original),
            image.same_size(old(image)),
            image@.pixels == darkened(
                old(image)@.pixels,
                original@.pixels,
                old(image).width as int,
                old(image).height as int,
                done as nat,
            ),
        decreases passes - done,
    {
        blend(image, original, "multiply");
        done += 1;
    }
}

} // verus!
