use lineart::buffer::PixelBuffer;
use lineart::error::LineartError;
use lineart::grid::{column_left, copy_pixel, new_canvas, place, row_top};
use lineart::image_generation::{generate_image_grid, Variant};

fn cell(width: u32, height: u32, seed: u8) -> PixelBuffer {
    let mut data: Vec<u8> = Vec::new();
    for i in 0..(width * height * 4) {
        data.push(seed.wrapping_add((i % 200) as u8));
    }
    PixelBuffer { width, height, data }
}

fn variant(width: u32, height: u32, seed: u8) -> Variant {
    Variant { blur_radius: 0, darken_level: 0, path: String::new(), image: cell(width, height, seed) }
}

fn pixel_of(buffer: &PixelBuffer, x: u32, y: u32) -> [u8; 4] {
    let at = ((y * buffer.width + x) * 4) as usize;
    [buffer.data[at], buffer.data[at + 1], buffer.data[at + 2], buffer.data[at + 3]]
}

#[test]
fn columns_are_spaced_by_twelve_tenths_after_a_margin() {
    assert_eq!(column_left(100, 0), 130);
    assert_eq!(column_left(100, 1), 250);
    assert_eq!(column_left(100, 2), 370);
    assert_eq!(column_left(100, 4), 610);
}

#[test]
fn rows_are_spaced_by_eleven_tenths_after_a_margin() {
    assert_eq!(row_top(100, 0), 60);
    assert_eq!(row_top(100, 1), 170);
    assert_eq!(row_top(100, 2), 280);
    assert_eq!(row_top(100, 5), 610);
}

#[test]
fn edges_are_rounded_down() {
    assert_eq!(column_left(7, 0), 9);
    assert_eq!(column_left(7, 1), 17);
    assert_eq!(column_left(7, 3), 34);
    assert_eq!(row_top(7, 0), 4);
    assert_eq!(row_top(7, 1), 11);
    assert_eq!(row_top(7, 3), 27);
    assert_eq!(column_left(1, 0), 1);
    assert_eq!(row_top(1, 0), 0);
}

#[test]
fn edges_of_the_widest_cells() {
    assert_eq!(column_left(u32::MAX, 256), (u32::MAX as u64) * 3085 / 10);
    assert_eq!(row_top(u32::MAX, 256), (u32::MAX as u64) * 2822 / 10);
    assert_eq!(column_left(0, 200), 0);
    assert_eq!(row_top(0, 200), 0);
}

#[test]
fn new_canvas_is_opaque_white() {
    let canvas = new_canvas(5, 3).unwrap();
    assert_eq!(canvas.width, 5);
    assert_eq!(canvas.height, 3);
    assert_eq!(canvas.data, vec![255u8; 60]);
}

#[test]
fn new_canvas_without_area_is_empty() {
    assert_eq!(new_canvas(0, 9).unwrap().data.len(), 0);
    assert_eq!(new_canvas(9, 0).unwrap().data.len(), 0);
}

#[test]
fn copy_pixel_moves_four_bytes() {
    let mut canvas = new_canvas(3, 2).unwrap();
    let source = cell(2, 2, 10);
    copy_pixel(&mut canvas, &source, 2, 1, 1, 0);
    assert_eq!(pixel_of(&canvas, 2, 1), pixel_of(&source, 1, 0));
    assert_eq!(pixel_of(&canvas, 1, 1), [255, 255, 255, 255]);
    assert_eq!(pixel_of(&canvas, 2, 0), [255, 255, 255, 255]);
    assert_eq!(pixel_of(&canvas, 0, 0), [255, 255, 255, 255]);
}

#[test]
fn placing_replaces_the_pixels_under_the_cell() {
    let mut canvas = new_canvas(6, 5).unwrap();
    let source = cell(2, 3, 40);
    place(&mut canvas, &source, 3, 1);
    for y in 0..5u32 {
        for x in 0..6u32 {
            let inside = x >= 3 && x < 5 && y >= 1 && y < 4;
            if inside {
                assert_eq!(pixel_of(&canvas, x, y), pixel_of(&source, x - 3, y - 1));
            } else {
                assert_eq!(pixel_of(&canvas, x, y), [255, 255, 255, 255]);
            }
        }
    }
}

#[test]
fn placing_does_not_blend_transparent_pixels() {
    let mut canvas = new_canvas(2, 2).unwrap();
    let source = PixelBuffer { width: 1, height: 1, data: vec![10, 20, 30, 0] };
    place(&mut canvas, &source, 1, 1);
    assert_eq!(pixel_of(&canvas, 1, 1), [10, 20, 30, 0]);
}

#[test]
fn placing_clips_at_the_right_and_bottom() {
    let mut canvas = new_canvas(4, 4).unwrap();
    let source = cell(3, 3, 90);
    place(&mut canvas, &source, 2, 3);
    for y in 0..4u32 {
        for x in 0..4u32 {
            let inside = x >= 2 && y >= 3;
            if inside {
                assert_eq!(pixel_of(&canvas, x, y), pixel_of(&source, x - 2, y - 3));
            } else {
                assert_eq!(pixel_of(&canvas, x, y), [255, 255, 255, 255]);
            }
        }
    }
}

#[test]
fn placing_beyond_the_canvas_changes_nothing() {
    let mut canvas = new_canvas(4, 4).unwrap();
    let source = cell(3, 3, 90);
    place(&mut canvas, &source, 4, 0);
    assert_eq!(canvas.data, vec![255u8; 64]);
    place(&mut canvas, &source, 0, 4);
    assert_eq!(canvas.data, vec![255u8; 64]);
    place(&mut canvas, &source, u64::MAX, u64::MAX);
    assert_eq!(canvas.data, vec![255u8; 64]);
}

#[test]
fn placing_an_empty_cell_changes_nothing() {
    let mut canvas = new_canvas(4, 4).unwrap();
    place(&mut canvas, &PixelBuffer { width: 0, height: 0, data: vec![] }, 1, 1);
    assert_eq!(canvas.data, vec![255u8; 64]);
}

#[test]
fn later_cells_replace_earlier_ones() {
    let mut canvas = new_canvas(3, 3).unwrap();
    let first = cell(2, 2, 10);
    let second = cell(2, 2, 150);
    place(&mut canvas, &first, 0, 0);
    place(&mut canvas, &second, 1, 1);
    assert_eq!(pixel_of(&canvas, 0, 0), pixel_of(&first, 0, 0));
    assert_eq!(pixel_of(&canvas, 1, 0), pixel_of(&first, 1, 0));
    assert_eq!(pixel_of(&canvas, 0, 1), pixel_of(&first, 0, 1));
    assert_eq!(pixel_of(&canvas, 1, 1), pixel_of(&second, 0, 0));
    assert_eq!(pixel_of(&canvas, 2, 2), pixel_of(&second, 1, 1));
    assert_eq!(pixel_of(&canvas, 2, 0), [255, 255, 255, 255]);
}

#[test]
fn sheet_of_a_two_by_two_sweep() {
    let cells = vec![variant(100, 100, 1), variant(100, 100, 2), variant(100, 100, 3), variant(100, 100, 4)];
    let sheet = generate_image_grid(1, 1, 2, 0, 1, 2, "out/cat", &cells).unwrap();
    assert_eq!(sheet.path, "out/cat/summary.png");
    assert_eq!(sheet.canvas.width, 370);
    assert_eq!(sheet.canvas.height, 280);
    assert_eq!(sheet.canvas.data.len(), 370 * 280 * 4);
    assert_eq!(sheet.text_scale, 33);
    let anchors = [(130u32, 60u32), (250, 60), (130, 170), (250, 170)];
    for (k, (left, top)) in anchors.iter().enumerate() {
        assert_eq!(pixel_of(&sheet.canvas, *left, *top), pixel_of(&cells[k].image, 0, 0));
        assert_eq!(pixel_of(&sheet.canvas, left + 99, top + 99), pixel_of(&cells[k].image, 99, 99));
        assert_eq!(pixel_of(&sheet.canvas, left + 37, top + 81), pixel_of(&cells[k].image, 37, 81));
        assert_eq!(pixel_of(&sheet.canvas, left - 1, *top), [255, 255, 255, 255]);
        assert_eq!(pixel_of(&sheet.canvas, *left, top - 1), [255, 255, 255, 255]);
        assert_eq!(pixel_of(&sheet.canvas, left + 100, *top), [255, 255, 255, 255]);
        assert_eq!(pixel_of(&sheet.canvas, *left, top + 100), [255, 255, 255, 255]);
    }
    assert_eq!(pixel_of(&sheet.canvas, 0, 0), [255, 255, 255, 255]);
    assert_eq!(pixel_of(&sheet.canvas, 369, 279), [255, 255, 255, 255]);
}

#[test]
fn labels_of_a_two_by_two_sweep() {
    let cells = vec![variant(100, 100, 1), variant(100, 100, 2), variant(100, 100, 3), variant(100, 100, 4)];
    let sheet = generate_image_grid(1, 1, 2, 0, 1, 2, "out/cat", &cells).unwrap();
    let expected = [
        ("Blur", 0i64, 60i64),
        ("Darken", 33, 27),
        ("1", 65, 110),
        ("0", 180, 27),
        ("1", 300, 27),
        ("2", 65, 220),
    ];
    assert_eq!(sheet.labels.len(), expected.len());
    for (label, (text, x, y)) in sheet.labels.iter().zip(expected.iter()) {
        assert_eq!(label.text, *text);
        assert_eq!(label.x, *x);
        assert_eq!(label.y, *y);
    }
}

#[test]
fn labels_of_a_wider_sweep() {
    let mut cells: Vec<Variant> = Vec::new();
    for k in 0..12u8 {
        cells.push(variant(30, 20, k));
    }
    let sheet = generate_image_grid(3, 2, 3, 2, 10, 4, "d", &cells).unwrap();
    assert_eq!(sheet.canvas.width, 30 * (12 * 4 + 13) / 10);
    assert_eq!(sheet.canvas.height, 20 * (11 * 3 + 6) / 10);
    assert_eq!(sheet.text_scale, 10);
    let texts: Vec<&str> = sheet.labels.iter().map(|label| label.text.as_str()).collect();
    assert_eq!(texts, vec!["Blur", "Darken", "3", "2", "12", "22", "32", "5", "7"]);
    let places: Vec<(i64, i64)> = sheet.labels.iter().map(|label| (label.x, label.y)).collect();
    assert_eq!(
        places,
        vec![(0, 12), (10, 6), (19, 22), (54, 6), (90, 6), (126, 6), (162, 6), (19, 44), (19, 66)]
    );
}

#[test]
fn labels_of_a_sweep_with_falling_radii() {
    let cells = vec![variant(10, 10, 1), variant(10, 10, 2)];
    let sheet = generate_image_grid(5, -7, 2, 250, 200, 1, "d", &cells).unwrap();
    let texts: Vec<&str> = sheet.labels.iter().map(|label| label.text.as_str()).collect();
    assert_eq!(texts, vec!["Blur", "Darken", "5", "250", "-2"]);
}

#[test]
fn cells_of_other_sizes_are_placed_on_the_grid_of_the_first() {
    let cells = vec![variant(10, 10, 1), variant(4, 20, 99)];
    let sheet = generate_image_grid(1, 1, 1, 0, 1, 2, "d", &cells).unwrap();
    assert_eq!(sheet.canvas.width, 37);
    assert_eq!(sheet.canvas.height, 17);
    assert_eq!(pixel_of(&sheet.canvas, 13, 6), pixel_of(&cells[0].image, 0, 0));
    assert_eq!(pixel_of(&sheet.canvas, 25, 6), pixel_of(&cells[1].image, 0, 0));
    assert_eq!(pixel_of(&sheet.canvas, 28, 16), pixel_of(&cells[1].image, 3, 10));
    assert_eq!(pixel_of(&sheet.canvas, 29, 6), [255, 255, 255, 255]);
}

#[test]
fn sheet_without_cells_is_refused() {
    let cells: Vec<Variant> = Vec::new();
    assert!(matches!(generate_image_grid(1, 1, 0, 0, 1, 2, "d", &cells), Err(LineartError::MissingCell)));
    assert!(matches!(generate_image_grid(1, 1, 2, 0, 1, 0, "d", &cells), Err(LineartError::MissingCell)));
    assert!(matches!(generate_image_grid(1, 1, 0, 0, 1, 0, "d", &cells), Err(LineartError::MissingCell)));
    assert!(matches!(generate_image_grid(1, 1, 2, 0, 1, 2, "d", &cells), Err(LineartError::MissingCell)));
}

#[test]
fn sheet_with_too_few_or_too_many_cells_is_refused() {
    let cells = vec![variant(2, 2, 1), variant(2, 2, 2), variant(2, 2, 3)];
    assert!(matches!(generate_image_grid(1, 1, 2, 0, 1, 2, "d", &cells), Err(LineartError::MissingCell)));
    assert!(matches!(generate_image_grid(1, 1, 1, 0, 1, 2, "d", &cells), Err(LineartError::MissingCell)));
    assert!(matches!(generate_image_grid(1, 1, 0, 0, 1, 3, "d", &cells), Err(LineartError::MissingCell)));
    assert!(generate_image_grid(1, 1, 3, 0, 1, 1, "d", &cells).is_ok());
    assert!(generate_image_grid(1, 1, 1, 0, 1, 3, "d", &cells).is_ok());
}

#[test]
fn sheet_wider_than_a_u32_is_refused() {
    let cells = vec![Variant {
        blur_radius: 0,
        darken_level: 0,
        path: String::new(),
        image: PixelBuffer { width: 0x8000_0000, height: 0, data: vec![] },
    }];
    assert!(matches!(generate_image_grid(1, 1, 1, 0, 1, 1, "d", &cells), Err(LineartError::SheetTooLarge)));
    let cells = vec![Variant {
        blur_radius: 0,
        darken_level: 0,
        path: String::new(),
        image: PixelBuffer { width: 0, height: 0xf000_0000, data: vec![] },
    }];
    assert!(matches!(generate_image_grid(1, 1, 1, 0, 1, 1, "d", &cells), Err(LineartError::SheetTooLarge)));
}

#[test]
fn sheet_of_empty_cells_is_empty() {
    let cells = vec![variant(0, 0, 1), variant(0, 0, 2)];
    let sheet = generate_image_grid(1, 1, 2, 0, 1, 1, "d", &cells).unwrap();
    assert_eq!(sheet.canvas.width, 0);
    assert_eq!(sheet.canvas.height, 0);
    assert_eq!(sheet.labels.len(), 5);
    assert_eq!(sheet.text_scale, 0);
}
