//! The image filters that the pipeline takes from `photon_rs`.
//!
//! Each function here hands a buffer to one filter of that crate and takes
//! the result back. Their contracts are not proved: they say what the
//! crate's source does, and where that is too long to state, they give the
//! result a name.

use vstd::prelude::*;
use crate::buffer::{byte_len, PixelBuffer};

verus! {

/// The least of three channel values.
pub open spec fn min3(r: u8, g: u8, b: u8) -> u8 {
    if r <= g && r <= b {
        r
    } else if g <= b {
        g
    } else {
        b
    }
}

/// The greatest of three channel values.
pub open spec fn max3(r: u8, g: u8, b: u8) -> u8 {
    if r >= g && r >= b {
        r
    } else if g >= b {
        g
    } else {
        b
    }
}

/// The grey level of a colour: midway between its least and its greatest
/// channel, rounded down.
pub open spec fn gray_level(r: u8, g: u8, b: u8) -> u8 {
    ((min3(r, g, b) + max3(r, g, b)) / 2) as u8
}

/// Every pixel's red, green and blue replaced by its grey level; alpha kept.
pub open spec fn desaturated(pixels: Seq<u8>) -> Seq<u8> {
    Seq::new(
        pixels.len(),
        |i: int|
            if i % 4 == 3 {
                pixels[i]
            } else {
                gray_level(pixels[i - i % 4], pixels[i - i % 4 + 1], pixels[i - i % 4 + 2])
            },
    )
}

/// Every red, green and blue byte `v` replaced by `255 - v`; alpha kept.
pub open spec fn inverted(pixels: Seq<u8>) -> Seq<u8> {
    Seq::new(
        pixels.len(),
        |i: int|
            if i % 4 == 3 {
                pixels[i]
            } else {
                (255 - pixels[i]) as u8
            },
    )
}

/// What `photon_rs::conv::gaussian_blur` makes of an image's bytes.
pub uninterp spec fn gaussian_blurred(pixels: Seq<u8>, width: int, height: int, radius: int) -> Seq<u8>;

/// What `photon_rs::conv::sobel_horizontal` makes of an image's bytes.
pub uninterp spec fn sobel_horizontal_filtered(pixels: Seq<u8>, width: int, height: int) -> Seq<u8>;

/// What `photon_rs::conv::sobel_vertical` makes of an image's bytes.
pub uninterp spec fn sobel_vertical_filtered(pixels: Seq<u8>, width: int, height: int) -> Seq<u8>;

/// What `photon_rs::multiple::blend` makes of a base image's bytes, given
/// the bytes of a second image of the same size and the blend mode.
pub uninterp spec fn blended(
    base: Seq<u8>,
    top: Seq<u8>,
    width: int,
    height: int,
    mode: Seq<char>,
) -> Seq<u8>;

/// The blur filter reads its input through 32-bit offsets and looks one
/// pixel to each side: the image is at least two pixels wide and high and
/// its bytes are counted by a `u32`.
pub open spec fn blurrable(image: &PixelBuffer) -> bool {
    &&& image.wf()
    &&& image.width >= 2
    &&& image.height >= 2
    &&& byte_len(image.width as int, image.height as int) <= u32::MAX
}

/// Two images that the blend filter can combine: both rectangular, of the
/// same size, with fewer pixels than `u32::MAX`. The filter counts one
/// step past the last pixel in a `u32`, so a count of `u32::MAX` itself is
/// one too many.
pub open spec fn blendable(image: &PixelBuffer, top: &PixelBuffer) -> bool {
    &&& image.wf()
    &&& top.wf()
    &&& image.same_size(top)
    &&& image.width * image.height < u32::MAX
}

/// Calls `photon_rs::monochrome::desaturate`. That function walks the bytes
/// four at a time, sorts the first three of each group and writes the mean
/// of the least and the greatest, rounded down, over all three; the fourth
/// byte and the dimensions are left alone.
#[verifier::external_body]
pub(crate) fn desaturate(image: &mut PixelBuffer)
    requires
        old(image).wf(),
    ensures
        final(image).same_size(old(image)),
        final(image)@.pixels == desaturated(old(image)@.pixels),
{
    let mut photo = photon_rs::PhotonImage::new(image.data.clone(), image.width, image.height);
    photon_rs::monochrome::desaturate(&mut photo);
    image.data = photo.get_raw_pixels();
}

/// Calls `photon_rs::channels::invert`. That function walks the bytes four
/// at a time and replaces each of the first three, `v`, by `255 - v`; the
/// fourth byte and the dimensions are left alone.
#[verifier::external_body]
pub(crate) fn invert(image: &mut PixelBuffer)
    requires
        old(image).wf(),
    ensures
        final(image).same_size(old(image)),
        final(image)@.pixels == inverted(old(image)@.pixels),
{
    let mut photo = photon_rs::PhotonImage::new(image.data.clone(), image.width, image.height);
    photon_rs::channels::invert(&mut photo);
    image.data = photo.get_raw_pixels();
}

/// Calls `photon_rs::conv::gaussian_blur`, three box blurs in a row. The
/// result is a function of the bytes, the dimensions and the radius, and has
/// as many bytes as the input. On an image narrower or lower than two
/// pixels, or with a negative radius, the box blur can index past its
/// buffer, and it computes byte offsets in `u32`: those inputs are left out.
#[verifier::external_body]
pub(crate) fn gaussian_blur(image: &mut PixelBuffer, radius: i32)
    requires
        blurrable(old(image)),
        radius >= 0,
    ensures
        final(image).same_size(old(image)),
        final(image).wf(),
        final(image)@.pixels == gaussian_blurred(
            old(image)@.pixels,
            old(image).width as int,
            old(image).height as int,
            radius as int,
        ),
{
    let mut photo = photon_rs::PhotonImage::new(image.data.clone(), image.width, image.height);
    photon_rs::conv::gaussian_blur(&mut photo, radius);
    image.data = photo.get_raw_pixels();
}

/// Calls `photon_rs::conv::sobel_horizontal`, a 3x3 convolution. The result
/// is a function of the bytes and the dimensions and has four bytes per
/// pixel of the input. The convolution subtracts one from each dimension,
/// so an empty image is left out.
#[verifier::external_body]
pub(crate) fn sobel_horizontal(image: &mut PixelBuffer)
    requires
        old(image).wf(),
        old(image).width >= 1,
        old(image).height >= 1,
    ensures
        final(image).same_size(old(image)),
        final(image).wf(),
        final(image)@.pixels == sobel_horizontal_filtered(
            old(image)@.pixels,
            old(image).width as int,
            old(image).height as int,
        ),
{
    let mut photo = photon_rs::PhotonImage::new(image.data.clone(), image.width, image.height);
    photon_rs::conv::sobel_horizontal(&mut photo);
    image.data = photo.get_raw_pixels();
}

/// Calls `photon_rs::conv::sobel_vertical`, a 3x3 convolution. The result
/// is a function of the bytes and the dimensions and has four bytes per
/// pixel of the input. The convolution subtracts one from each dimension,
/// so an empty image is left out.
#[verifier::external_body]
pub(crate) fn sobel_vertical(image: &mut PixelBuffer)
    requires
        old(image).wf(),
        old(image).width >= 1,
        old(image).height >= 1,
    ensures
        final(image).same_size(old(image)),
        final(image).wf(),
        final(image)@.pixels == sobel_vertical_filtered(
            old(image)@.pixels,
            old(image).width as int,
            old(image).height as int,
        ),
{
    let mut photo = photon_rs::PhotonImage::new(image.data.clone(), image.width, image.height);
    photon_rs::conv::sobel_vertical(&mut photo);
    image.data = photo.get_raw_pixels();
}

/// Calls `photon_rs::multiple::blend`, which combines each pixel of `image`
/// with the pixel of `top` at the same place, in the named blend mode, and
/// writes the result to `image`. The result is a function of both images'
/// bytes, the dimensions and the mode, and has four bytes per pixel. The
/// function panics where `image` is wider or higher than `top`. It walks
/// the pixels with a `u32` counter that it raises on every step, also on
/// the step after the last pixel, so the counter ends one above the number
/// of pixels: that number has to stay below `u32::MAX`. Here both images
/// have the same size and fewer pixels than that.
#[verifier::external_body]
pub(crate) fn blend(image: &mut PixelBuffer, top: &PixelBuffer, mode: &str)
    requires
        blendable(old(image), top),
    ensures
        final(image).same_size(old(image)),
        final(image).wf(),
        final(image)@.pixels == blended(
            old(image)@.pixels,
            top@.pixels,
            old(image).width as int,
            old(image).height as int,
            mode@,
        ),
{
    let mut photo = photon_rs::PhotonImage::new(image.data.clone(), image.width, image.height);
    let other = photon_rs::PhotonImage::new(top.data.clone(), top.width, top.height);
    photon_rs::multiple::blend(&mut photo, &other, mode);
    image.data = photo.get_raw_pixels();
}

/// Calls `photon_rs::transform::resize` with the Lanczos3 sampling filter.
/// The result has the dimensions asked for and four bytes per pixel. Its
/// bytes come out of sines in floating point, whose last digit the platform
/// decides, so nothing is said of them. The resampling reads the source's
/// first row and column, so an empty source is left out; the contract
/// speaks of shrinking only, to an image that is not empty. On the way the
/// function holds an image of the old width and the new height with
/// sixteen bytes per pixel, which has to fit in a vector.
#[verifier::external_body]
pub(crate) fn resize_lanczos3(image: &PixelBuffer, new_width: u32, new_height: u32) -> (r:
    PixelBuffer)
    requires
        image.wf(),
        image.width >= 1,
        image.height >= 1,
        1 <= new_width <= image.width,
        1 <= new_height <= image.height,
        4 * byte_len(image.width as int, new_height as int) <= isize::MAX,
    ensures
        r.width == new_width,
        r.height == new_height,
        r.wf(),
{
    let photo = photon_rs::PhotonImage::new(image.data.clone(), image.width, image.height);
    let filter = photon_rs::transform::SamplingFilter::Lanczos3;
    let resized = photon_rs::transform::resize(&photo, new_width, new_height, filter);
    PixelBuffer {
        width: resized.get_width(),
        height: resized.get_height(),
        data: resized.get_raw_pixels(),
    }
}

} // verus!
