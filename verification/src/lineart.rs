//! The line drawing itself: from a photograph to ink lines on a
//! transparent ground, by one of two methods.

use vstd::prelude::*;
use crate::alpha::{alpha_keyed, image_color_to_alpha};
use crate::buffer::{PixelBuffer, Rgba};
use crate::edge::{combine_gradients, edge_field};
use crate::error::LineartError;
use crate::filters::{
    blend,
    blended,
    blurrable,
    desaturate,
    desaturated,
    gaussian_blur,
    gaussian_blurred,
    invert,
    inverted,
    sobel_horizontal,
    sobel_horizontal_filtered,
    sobel_vertical,
    sobel_vertical_filtered,
};

verus! {

/// How the drawing is derived from the photograph.
#[derive(Clone, Copy, Debug, PartialEq, Eq, Structural)]
pub enum Method {
    /// From the desaturated photograph and its blurred negative.
    Gaussian,
    /// From the edge field of the photograph.
    Sobel,
}

/// Opaque white, the ground that keying makes transparent.
pub open spec fn white() -> Rgba {
    Rgba { red: 255, green: 255, blue: 255, alpha: 255 }
}

/// The last step of both methods: alpha follows the distance from white,
/// with transparency at distance 0 and full opacity at distance 255.
pub open spec fn keyed_on_white(pixels: Seq<u8>) -> Seq<u8> {
    alpha_keyed(pixels, white(), 255, 0)
}

/// The dodge blend of a base with a blend layer.
pub open spec fn dodged(base: Seq<u8>, layer: Seq<u8>, width: int, height: int) -> Seq<u8> {
    blended(base, layer, width, height, "dodge"@)
}

/// The Gaussian method: the desaturated image, dodge-blended with its own
/// blurred negative, then keyed.
pub open spec fn gaussian_lineart(pixels: Seq<u8>, width: int, height: int, radius: int) -> Seq<
    u8,
> {
    let base = desaturated(pixels);
    let layer = gaussian_blurred(inverted(base), width, height, radius);
    keyed_on_white(dodged(base, layer, width, height))
}

/// The edge field of an image: the magnitude of its horizontal and vertical
/// Sobel gradients.
pub open spec fn global_sobel(pixels: Seq<u8>, width: int, height: int) -> Seq<u8> {
    edge_field(
        sobel_horizontal_filtered(pixels, width, height),
        sobel_vertical_filtered(pixels, width, height),
    )
}

/// The Sobel method: the negative of the desaturated edge field,
/// dodge-blended with the blurred edge field, then keyed.
pub open spec fn sobel_lineart(pixels: Seq<u8>, width: int, height: int, radius: int) -> Seq<u8> {
    let edges = desaturated(global_sobel(pixels, width, height));
    let base = inverted(edges);
    let layer = gaussian_blurred(edges, width, height, radius);
    keyed_on_white(dodged(base, layer, width, height))
}

/// The line drawing of an image by the given method.
pub open spec fn lineart(method: Method, pixels: Seq<u8>, width: int, height: int, radius: int) -> Seq<
    u8,
> {
    match method {
        Method::Gaussian => gaussian_lineart(pixels, width, height, radius),
        Method::Sobel => sobel_lineart(pixels, width, height, radius),
    }
}

/// Draws the line art of `image` by the Gaussian method.
pub fn gaussian_blend_dodge(image: PixelBuffer, blur_radius: i32) -> (drawing: PixelBuffer)
    requires
        blurrable(&image),
        blur_radius >= 0,
    ensures
        drawing.same_size(&image),
        drawing.wf(),
        drawing@.pixels == gaussian_lineart(
            image@.pixels,
            image.width as int,
            image.height as int,
            blur_radius as int,
        ),
{
    let mut base = image;
    desaturate(&mut base);
    let mut blend_layer = base.duplicate();
    invert(&mut blend_layer);
    gaussian_blur(&mut blend_layer, blur_radius);
    blend(&mut base, &blend_layer, "dodge");
    image_color_to_alpha(&mut base, Rgba { red: 255, green: 255, blue: 255, alpha: 255 }, 255, 0);
    base
}

/// Extracts the edge field of `image` from its two Sobel gradients. The
/// gradients of one image always agree in length, so this succeeds.
pub fn calculate_global_sobel(image: PixelBuffer) -> (r: Result<PixelBuffer, LineartError>)
    requires
        image.wf(),
        image.width >= 1,
        image.height >= 1,
    ensures
        r is Ok,
        r matches Ok(field) ==> field.same_size(&image) && field.wf() && field@.pixels == global_sobel(
            image@.pixels,
            image.width as int,
            image.height as int,
        ),
{
    let mut sobel_y = image.duplicate();
    let mut sobel_x = image;
    sobel_horizontal(&mut sobel_x);
    sobel_vertical(&mut sobel_y);
    combine_gradients(&sobel_x, &sobel_y)
}

/// Draws the line art of `image` by the Sobel method.
pub fn sobel_blend_dodge(image: PixelBuffer, blur_radius: i32) -> (drawing: PixelBuffer)
    requires
        blurrable(&image),
        blur_radius >= 0,
    ensures
        drawing.same_size(&image),
        drawing.wf(),
        drawing@.pixels == sobel_lineart(
            image@.pixels,
            image.width as int,
            image.height as int,
            blur_radius as int,
        ),
{
    let mut sobel = calculate_global_sobel(image).unwrap();
    desaturate(&mut sobel);
    let mut base_layer = sobel.duplicate();
    invert(&mut base_layer);
    gaussian_blur(&mut sobel, blur_radius);
    blend(&mut base_layer, &sobel, "dodge");
    image_color_to_alpha(
        &mut base_layer,
        Rgba { red: 255, green: 255, blue: 255, alpha: 255 },
        255,
        0,
    );
    base_layer
}

/// Draws the line art of `image` by the given method.
pub fn draw(method: Method, image: PixelBuffer, blur_radius: i32) -> (drawing: PixelBuffer)
    requires
        blurrable(&image),
        blur_radius >= 0,
    ensures
        drawing.same_size(&image),
        drawing.wf(),
        drawing@.pixels == lineart(
            method,
            image@.pixels,
            image.width as int,
            image.height as int,
            blur_radius as int,
        ),
{
    match method {
        Method::Gaussian => gaussian_blend_dodge(image, blur_radius),
        Method::Sobel => sobel_blend_dodge(image, blur_radius),
    }
}

} // verus!
