use lineart::buffer::PixelBuffer;
use lineart::lineart::{
    calculate_global_sobel, draw, gaussian_blend_dodge, sobel_blend_dodge, Method,
};

fn photograph(width: u32, height: u32) -> Vec<u8> {
    let mut data: Vec<u8> = Vec::new();
    for y in 0..height {
        for x in 0..width {
            let near_edge = x == width / 2 || y == height / 3;
            data.push(if near_edge { 20 } else { ((x * 31 + y * 17 + 90) % 256) as u8 });
            data.push(if near_edge { 30 } else { ((x * 11 + y * 41 + 120) % 256) as u8 });
            data.push(((x * 5 + y * 3 + 60) % 256) as u8);
            data.push(255);
        }
    }
    data
}

fn key_on_white(pixels: &mut [u8]) {
    for pixel in pixels.chunks_exact_mut(4) {
        let red = 255 - pixel[0];
        let green = 255 - pixel[1];
        pixel[3] = if red >= green { red } else { green };
    }
}

fn gaussian_with_photon(data: &[u8], width: u32, height: u32, radius: i32) -> Vec<u8> {
    let mut base = photon_rs::PhotonImage::new(data.to_vec(), width, height);
    photon_rs::monochrome::desaturate(&mut base);
    let mut layer = base.clone();
    photon_rs::channels::invert(&mut layer);
    photon_rs::conv::gaussian_blur(&mut layer, radius);
    photon_rs::multiple::blend(&mut base, &layer, "dodge");
    let mut pixels = base.get_raw_pixels();
    key_on_white(&mut pixels);
    pixels
}

fn edges_with_photon(data: &[u8], width: u32, height: u32) -> Vec<u8> {
    let mut horizontal = photon_rs::PhotonImage::new(data.to_vec(), width, height);
    let mut vertical = photon_rs::PhotonImage::new(data.to_vec(), width, height);
    photon_rs::conv::sobel_horizontal(&mut horizontal);
    photon_rs::conv::sobel_vertical(&mut vertical);
    let kx = horizontal.get_raw_pixels();
    let ky = vertical.get_raw_pixels();
    let mut field: Vec<u8> = Vec::new();
    for i in 0..kx.len() {
        let sum = (kx[i] as u32) * (kx[i] as u32) + (ky[i] as u32) * (ky[i] as u32);
        field.push((sum as f64).sqrt() as u8);
    }
    field
}

fn sobel_with_photon(data: &[u8], width: u32, height: u32, radius: i32) -> Vec<u8> {
    let mut sobel = photon_rs::PhotonImage::new(edges_with_photon(data, width, height), width, height);
    photon_rs::monochrome::desaturate(&mut sobel);
    let mut base = sobel.clone();
    photon_rs::channels::invert(&mut base);
    photon_rs::conv::gaussian_blur(&mut sobel, radius);
    photon_rs::multiple::blend(&mut base, &sobel, "dodge");
    let mut pixels = base.get_raw_pixels();
    key_on_white(&mut pixels);
    pixels
}

#[test]
fn desaturation_is_the_mean_of_least_and_greatest_channel() {
    let data = photograph(9, 7);
    let mut image = photon_rs::PhotonImage::new(data.clone(), 9, 7);
    photon_rs::monochrome::desaturate(&mut image);
    let gray = image.get_raw_pixels();
    for (after, before) in gray.chunks_exact(4).zip(data.chunks_exact(4)) {
        let least = before[0].min(before[1]).min(before[2]) as u32;
        let greatest = before[0].max(before[1]).max(before[2]) as u32;
        let level = ((least + greatest) / 2) as u8;
        assert_eq!(after, [level, level, level, before[3]]);
    }
    let drawing = gaussian_blend_dodge(PixelBuffer { width: 9, height: 7, data: data.clone() }, 1);
    for pixel in drawing.data.chunks_exact(4) {
        assert_eq!(pixel[0], pixel[1]);
        assert_eq!(pixel[1], pixel[2]);
    }
}

#[test]
fn inversion_is_the_complement_of_each_colour_channel() {
    let data = photograph(5, 4);
    let mut image = photon_rs::PhotonImage::new(data.clone(), 5, 4);
    photon_rs::channels::invert(&mut image);
    let negative = image.get_raw_pixels();
    for (after, before) in negative.chunks_exact(4).zip(data.chunks_exact(4)) {
        assert_eq!(after, [255 - before[0], 255 - before[1], 255 - before[2], before[3]]);
    }
    let flat = PixelBuffer { width: 4, height: 4, data: vec![77; 64] };
    let drawing = gaussian_blend_dodge(flat, 1);
    for pixel in drawing.data.chunks_exact(4) {
        assert!(pixel[0] > 77);
    }
}

#[test]
fn gaussian_drawing_is_the_pipeline_of_filters() {
    let data = photograph(12, 10);
    for radius in 1..4 {
        let drawing = gaussian_blend_dodge(
            PixelBuffer { width: 12, height: 10, data: data.clone() },
            radius,
        );
        assert_eq!(drawing.width, 12);
        assert_eq!(drawing.height, 10);
        assert_eq!(drawing.data, gaussian_with_photon(&data, 12, 10, radius));
    }
}

#[test]
fn gaussian_drawing_depends_on_the_radius() {
    let data = photograph(16, 16);
    let thin = gaussian_blend_dodge(PixelBuffer { width: 16, height: 16, data: data.clone() }, 1);
    let wide = gaussian_blend_dodge(PixelBuffer { width: 16, height: 16, data: data.clone() }, 5);
    assert_ne!(thin.data, wide.data);
}

#[test]
fn gaussian_drawing_is_not_the_photograph() {
    let data = photograph(12, 10);
    let drawing = gaussian_blend_dodge(PixelBuffer { width: 12, height: 10, data: data.clone() }, 2);
    assert_ne!(drawing.data, data);
    let mut keyed_only = data.clone();
    key_on_white(&mut keyed_only);
    assert_ne!(drawing.data, keyed_only);
}

#[test]
fn drawing_alpha_is_the_distance_from_white() {
    let data = photograph(12, 10);
    let gaussian = gaussian_blend_dodge(PixelBuffer { width: 12, height: 10, data: data.clone() }, 2);
    let sobel = sobel_blend_dodge(PixelBuffer { width: 12, height: 10, data: data.clone() }, 2);
    for pixel in gaussian.data.chunks_exact(4).chain(sobel.data.chunks_exact(4)) {
        let red = 255 - pixel[0];
        let green = 255 - pixel[1];
        assert_eq!(pixel[3], if red >= green { red } else { green });
    }
}

#[test]
fn smallest_image_that_can_be_drawn() {
    let data = photograph(2, 2);
    let drawing = gaussian_blend_dodge(PixelBuffer { width: 2, height: 2, data: data.clone() }, 0);
    assert_eq!(drawing.data, gaussian_with_photon(&data, 2, 2, 0));
    let drawing = sobel_blend_dodge(PixelBuffer { width: 2, height: 2, data: data.clone() }, 7);
    assert_eq!(drawing.data, sobel_with_photon(&data, 2, 2, 7));
}

#[test]
fn radius_beyond_the_image_is_accepted() {
    let data = photograph(6, 4);
    let drawing = gaussian_blend_dodge(
        PixelBuffer { width: 6, height: 4, data: data.clone() },
        i32::MAX,
    );
    assert_eq!(drawing.data, gaussian_with_photon(&data, 6, 4, i32::MAX));
}

#[test]
fn global_sobel_is_the_magnitude_of_both_gradients() {
    let data = photograph(12, 10);
    let field = calculate_global_sobel(PixelBuffer { width: 12, height: 10, data: data.clone() });
    let field = field.unwrap();
    assert_eq!(field.width, 12);
    assert_eq!(field.height, 10);
    assert_eq!(field.data, edges_with_photon(&data, 12, 10));
    assert_ne!(field.data, data);
}

#[test]
fn global_sobel_differs_from_either_gradient() {
    let data = photograph(12, 10);
    let field = calculate_global_sobel(PixelBuffer { width: 12, height: 10, data: data.clone() });
    let field = field.unwrap();
    let mut horizontal = photon_rs::PhotonImage::new(data.clone(), 12, 10);
    photon_rs::conv::sobel_horizontal(&mut horizontal);
    let mut vertical = photon_rs::PhotonImage::new(data.clone(), 12, 10);
    photon_rs::conv::sobel_vertical(&mut vertical);
    assert_ne!(horizontal.get_raw_pixels(), vertical.get_raw_pixels());
    assert_ne!(field.data, horizontal.get_raw_pixels());
    assert_ne!(field.data, vertical.get_raw_pixels());
}

#[test]
fn global_sobel_of_a_single_pixel() {
    let field = calculate_global_sobel(PixelBuffer { width: 1, height: 1, data: vec![9, 8, 7, 255] });
    let field = field.unwrap();
    assert_eq!(field.data, edges_with_photon(&[9, 8, 7, 255], 1, 1));
}

#[test]
fn sobel_drawing_is_the_pipeline_of_filters() {
    let data = photograph(12, 10);
    for radius in 1..4 {
        let drawing = sobel_blend_dodge(
            PixelBuffer { width: 12, height: 10, data: data.clone() },
            radius,
        );
        assert_eq!(drawing.width, 12);
        assert_eq!(drawing.height, 10);
        assert_eq!(drawing.data, sobel_with_photon(&data, 12, 10, radius));
    }
}

#[test]
fn the_two_methods_draw_differently() {
    let data = photograph(12, 10);
    let gaussian = gaussian_blend_dodge(PixelBuffer { width: 12, height: 10, data: data.clone() }, 2);
    let sobel = sobel_blend_dodge(PixelBuffer { width: 12, height: 10, data: data.clone() }, 2);
    assert_ne!(gaussian.data, sobel.data);
}

#[test]
fn narrow_and_low_images_are_drawn() {
    let sizes = [(2u32, 7u32), (7, 2), (3, 3), (2, 3), (3, 2), (5, 4), (9, 2)];
    let radii = [0, 1, 2, 3, 10, 1000];
    for (width, height) in sizes.iter() {
        let data = photograph(*width, *height);
        for radius in radii.iter() {
            let gaussian = gaussian_blend_dodge(
                PixelBuffer { width: *width, height: *height, data: data.clone() },
                *radius,
            );
            assert_eq!(gaussian.data, gaussian_with_photon(&data, *width, *height, *radius));
            let sobel = sobel_blend_dodge(
                PixelBuffer { width: *width, height: *height, data: data.clone() },
                *radius,
            );
            assert_eq!(sobel.data, sobel_with_photon(&data, *width, *height, *radius));
        }
    }
}

#[test]
fn global_sobel_of_a_single_row_or_column() {
    let sizes = [(1u32, 5u32), (5, 1), (1, 2), (2, 1)];
    for (width, height) in sizes.iter() {
        let data = photograph(*width, *height);
        let field = calculate_global_sobel(PixelBuffer {
            width: *width,
            height: *height,
            data: data.clone(),
        });
        let field = field.unwrap();
        assert_eq!(field.width, *width);
        assert_eq!(field.height, *height);
        assert_eq!(field.data, edges_with_photon(&data, *width, *height));
    }
}

#[test]
fn drawing_by_method_is_drawing_by_that_method() {
    let data = photograph(10, 8);
    let gaussian = draw(Method::Gaussian, PixelBuffer { width: 10, height: 8, data: data.clone() }, 2);
    assert_eq!(gaussian.data, gaussian_with_photon(&data, 10, 8, 2));
    let sobel = draw(Method::Sobel, PixelBuffer { width: 10, height: 8, data: data.clone() }, 2);
    assert_eq!(sobel.data, sobel_with_photon(&data, 10, 8, 2));
    assert_ne!(gaussian.data, sobel.data);
}

#[test]
fn transparent_photograph_is_drawn() {
    let mut data = photograph(9, 6);
    for (i, pixel) in data.chunks_exact_mut(4).enumerate() {
        pixel[3] = ((i * 40) % 256) as u8;
    }
    let gaussian = gaussian_blend_dodge(PixelBuffer { width: 9, height: 6, data: data.clone() }, 2);
    assert_eq!(gaussian.data, gaussian_with_photon(&data, 9, 6, 2));
    let sobel = sobel_blend_dodge(PixelBuffer { width: 9, height: 6, data: data.clone() }, 2);
    assert_eq!(sobel.data, sobel_with_photon(&data, 9, 6, 2));
}

#[test]
fn wide_blur_on_a_larger_image() {
    let data = photograph(64, 48);
    for radius in [7, 22, 23, 24, 31, 32, 100].iter() {
        let gaussian = gaussian_blend_dodge(
            PixelBuffer { width: 64, height: 48, data: data.clone() },
            *radius,
        );
        assert_eq!(gaussian.data, gaussian_with_photon(&data, 64, 48, *radius));
        assert_eq!(gaussian.data.len(), 64 * 48 * 4);
    }
}
