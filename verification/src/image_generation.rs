//! The batch: every variant of the sweep for one source image, each under
//! its own file name, and the contact sheet that shows them together.

use vstd::prelude::*;
use vstd::string::*;
use vstd::arithmetic::div_mod::lemma_fundamental_div_mod_converse;
use crate::buffer::{byte_len, lemma_area_bound, PixelBuffer};
use crate::darken::{darken, darkened, lemma_darkened_additive};
use crate::error::LineartError;
use crate::filters::{blendable, blurrable, resize_lanczos3};
use crate::grid::{column_left, new_canvas, place, row_top};
use crate::lineart::{draw, lineart, Method};
use crate::paths::{
    image_output_path,
    join_path,
    joined,
    lemma_image_output_path_injective,
    variant_file_name,
};
use crate::sheet::{
    composed,
    grid_error,
    is_label,
    is_sheet,
    make_column_label,
    make_row_label,
    sheet_error,
    sheet_label,
    ContactSheet,
    Label,
};
use crate::sweep::{
    blur_radius,
    check_levels,
    check_radii,
    darken_level,
    sweep_size,
    target_dimensions,
    Plan,
};

verus! {

/// One image of the sweep, with the parameters it was made with and the
/// path of the file it is to be saved in.
#[derive(Debug)]
pub struct Variant {
    pub blur_radius: i32,
    pub darken_level: u8,
    pub path: String,
    pub image: PixelBuffer,
}

/// Everything the sweep produced for one source image: the directory that
/// is to hold the files, and the variants row by row, one row per blur
/// radius, within a row one variant per darken level in ascending order.
#[derive(Debug)]
pub struct Sweep {
    pub directory: String,
    pub variants: Vec<Variant>,
}

/// The variants of a sweep together with their contact sheet.
#[derive(Debug)]
pub struct Generated {
    pub sweep: Sweep,
    pub sheet: ContactSheet,
}

/// The path of the file for the variant with the given blur radius and
/// darken level, below `image_dir`.
pub fn build_image_output_path(image_dir: &str, blur: i32, darken: u8) -> (path: String)
    ensures
        path@ == image_output_path(image_dir@, blur as int, darken as int),
{
    let name = variant_file_name(blur, darken);
    join_path(image_dir, name.as_str())
}

/// The directory for the files of the source image whose file name has the
/// given stem: the output directory joined with the stem. A source without
/// a file name has no stem and so no directory.
pub fn build_image_directory_path(file_stem: Option<&str>, output_dir: &str) -> (r: Result<
    String,
    LineartError,
>)
    ensures
        match file_stem {
            Some(stem) => r matches Ok(dir) && dir@ == joined(output_dir@, stem@),
            None => r == Err::<String, LineartError>(LineartError::MissingStem),
        },
{
    match file_stem {
        Some(stem) => Ok(join_path(output_dir, stem)),
        None => Err(LineartError::MissingStem),
    }
}

/// Why no variants can be drawn from a source of the given size, if none
/// can. A sweep without rows or without columns produces nothing and
/// cannot fail.
pub open spec fn variants_error(width: int, height: int, plan: Plan) -> Option<LineartError> {
    if plan.count() == 0 {
        None
    } else if !plan.has_valid_radii() {
        Some(LineartError::InvalidBlurRadius)
    } else if !plan.has_valid_levels() {
        Some(LineartError::InvalidDarkenLevel)
    } else if width < 2 || height < 2 {
        Some(LineartError::ImageTooSmall)
    } else if byte_len(width, height) > u32::MAX {
        Some(LineartError::ImageTooLarge)
    } else {
        None
    }
}

/// `variant` is the line drawing of `source` at the given radius, darkened
/// to the given level, under the path that belongs to that pair.
pub open spec fn is_variant(
    variant: Variant,
    dir: Seq<char>,
    method: Method,
    source: Seq<u8>,
    width: int,
    height: int,
    radius: int,
    level: int,
) -> bool {
    let drawing = lineart(method, source, width, height, radius);
    &&& variant.blur_radius == radius
    &&& variant.darken_level == level
    &&& variant.path@ == image_output_path(dir, radius, level)
    &&& variant.image.width == width
    &&& variant.image.height == height
    &&& variant.image.wf()
    &&& variant.image@.pixels == darkened(drawing, drawing, width, height, level as nat)
}

/// `variants` holds the first `count` variants of the sweep in row-major
/// order: entry `k` has the blur radius of row `k / darken_number` and the
/// darken level of column `k % darken_number`.
pub open spec fn is_sweep_prefix(
    variants: Seq<Variant>,
    count: int,
    dir: Seq<char>,
    method: Method,
    source: Seq<u8>,
    width: int,
    height: int,
    plan: Plan,
) -> bool {
    &&& variants.len() == count
    &&& forall|k: int|
        0 <= k < count ==> is_variant(
            #[trigger] variants[k],
            dir,
            method,
            source,
            width,
            height,
            plan.radius(k / (plan.darken_number as int)),
            plan.level(k % (plan.darken_number as int)),
        )
}

/// Draws every variant of the sweep from `source`, as it is: for each blur
/// radius one line drawing, and from it one variant per darken level, each
/// level reached from the one before by `darken_step` further passes. The
/// result holds `blur_number * darken_number` variants in row-major order.
pub fn sweep_variants(
    source: &PixelBuffer,
    image_dir: &str,
    min_blur_radius: i32,
    blur_step: i32,
    blur_number: u8,
    min_darken_number: u8,
    darken_step: u8,
    darken_number: u8,
    method: Method,
) -> (r: Result<Vec<Variant>, LineartError>)
    requires
        source.wf(),
    ensures
        ({
            let plan = Plan {
                min_blur_radius,
                blur_step,
                blur_number,
                min_darken_number,
                darken_step,
                darken_number,
            };
            match variants_error(source.width as int, source.height as int, plan) {
                Some(e) => r == Err::<Vec<Variant>, LineartError>(e),
                None => r matches Ok(variants) && is_sweep_prefix(
                    variants@,
                    plan.count(),
                    image_dir@,
                    method,
                    source@.pixels,
                    source.width as int,
                    source.height as int,
                    plan,
                ),
            }
        }),
{
    let ghost plan = Plan {
        min_blur_radius,
        blur_step,
        blur_number,
        min_darken_number,
        darken_step,
        darken_number,
    };
    let mut variants: Vec<Variant> = Vec::new();
    if blur_number == 0 || darken_number == 0 {
        assert(blur_number * darken_number == 0) by (nonlinear_arith)
            requires
                blur_number == 0 || darken_number == 0,
        ;
        return Ok(variants);
    }
    assert(blur_number * darken_number != 0) by (nonlinear_arith)
        requires
            blur_number > 0,
            darken_number > 0,
    ;
    if !check_radii(min_blur_radius, blur_step, blur_number) {
        return Err(LineartError::InvalidBlurRadius);
    }
    if !check_levels(min_darken_number, darken_step, darken_number) {
        return Err(LineartError::InvalidDarkenLevel);
    }
    if source.width < 2 || source.height < 2 {
        return Err(LineartError::ImageTooSmall);
    }
    proof {
        lemma_area_bound(source.width as int, source.height as int);
    }
    if (source.width as u64) * (source.height as u64) > 0x3fff_ffff {
        return Err(LineartError::ImageTooLarge);
    }
    let ghost pixels = source@.pixels;
    let ghost width = source.width as int;
    let ghost height = source.height as int;
    let ghost dir = image_dir@;
    let mut blur_index: u8 = 0;
    while blur_index < blur_number
        invariant
            blur_index <= blur_number,
            darken_number > 0,
            blurrable(source),
            source@.pixels == pixels,
            width == source.width,
            height == source.height,
            dir == image_dir@,
            plan == (Plan {
                min_blur_radius,
                blur_step,
                blur_number,
                min_darken_number,
                darken_step,
                darken_number,
            }),
            plan.has_valid_radii(),
            plan.has_valid_levels(),
            is_sweep_prefix(
                variants@,
                blur_index * darken_number,
                dir,
                method,
                pixels,
                width,
                height,
                plan,
            ),
        decreases blur_number - blur_index,
    {
        let radius = blur_radius(min_blur_radius, blur_step, blur_index);
        let original_image = draw(method, source.duplicate(), radius);
        let ghost drawing = original_image@.pixels;
        let mut image = original_image.duplicate();
        darken(&mut image, &original_image, min_darken_number);
        let mut darken_index: u8 = 0;
        while darken_index < darken_number
            invariant
                blur_index < blur_number,
                darken_index <= darken_number,
                blendable(&image, &original_image),
                original_image@.pixels == drawing,
                width == original_image.width,
                height == original_image.height,
                dir == image_dir@,
                plan == (Plan {
                    min_blur_radius,
                    blur_step,
                    blur_number,
                    min_darken_number,
                    darken_step,
                    darken_number,
                }),
                plan.has_valid_levels(),
                radius == plan.radius(blur_index as int),
                drawing == lineart(method, pixels, width, height, radius as int),
                darken_index < darken_number ==> image@.pixels == darkened(
                    drawing,
                    drawing,
                    width,
                    height,
                    plan.level(darken_index as int) as nat,
                ),
                is_sweep_prefix(
                    variants@,
                    blur_index * darken_number + darken_index,
                    dir,
                    method,
                    pixels,
                    width,
                    height,
                    plan,
                ),
            decreases darken_number - darken_index,
        {
            let level = darken_level(min_darken_number, darken_step, darken_index);
            let path = build_image_output_path(image_dir, radius, level);
            let variant = Variant {
                blur_radius: radius,
                darken_level: level,
                path,
                image: image.duplicate(),
            };
            proof {
                lemma_fundamental_div_mod_converse(
                    blur_index * darken_number + darken_index,
                    darken_number as int,
                    blur_index as int,
                    darken_index as int,
                );
                assert(is_variant(
                    variant,
                    dir,
                    method,
                    pixels,
                    width,
                    height,
                    radius as int,
                    level as int,
                ));
            }
            variants.push(variant);
            if darken_index + 1 < darken_number {
                assert(plan.level(darken_index + 1) == level + darken_step) by (nonlinear_arith)
                    requires
                        level == min_darken_number + darken_index * darken_step,
                        plan.level(darken_index + 1) == min_darken_number + (darken_index + 1)
                            * darken_step,
                ;
                darken(&mut image, &original_image, darken_step);
                proof {
                    lemma_darkened_additive(
                        drawing,
                        drawing,
                        width,
                        height,
                        level as nat,
                        darken_step as nat,
                    );
                }
            }
            darken_index += 1;
        }
        assert(blur_index * darken_number + darken_number == (blur_index + 1) * darken_number)
            by (nonlinear_arith);
        blur_index += 1;
    }
    Ok(variants)
}

/// The text of a file stem, if there is one.
pub open spec fn stem_view(file_stem: Option<&str>) -> Option<Seq<char>> {
    match file_stem {
        Some(stem) => Some(stem@),
        None => None,
    }
}

/// Whether an image of the given size is resized before the sweep: its
/// area exceeds the target area.
pub open spec fn is_resized(width: int, height: int, target_size: (u32, u32)) -> bool {
    width * height > target_size.0 * target_size.1
}

/// The size at which an image of the given size enters a sweep with the
/// given target size.
pub open spec fn entering_size(width: int, height: int, target_size: (u32, u32)) -> (int, int) {
    sweep_size(width, height, target_size.0 as int, target_size.1 as int)
}

/// Why the images of a sweep cannot be generated, if they cannot: the
/// source has no file stem, no variants can be drawn at the size at which
/// the image enters the sweep, or resizing it to that size would take more
/// memory than a vector can hold.
pub open spec fn all_images_error(
    file_stem: Option<Seq<char>>,
    width: int,
    height: int,
    target_size: (u32, u32),
    plan: Plan,
) -> Option<LineartError> {
    let size = entering_size(width, height, target_size);
    if file_stem is None {
        Some(LineartError::MissingStem)
    } else {
        match variants_error(size.0, size.1, plan) {
            Some(e) => Some(e),
            None => if plan.count() != 0 && is_resized(width, height, target_size) && 4
                * byte_len(width, size.1) > isize::MAX {
                Some(LineartError::ImageTooLarge)
            } else {
                None
            },
        }
    }
}

/// `source` can be what the sweep draws from, for an image with the given
/// bytes and size: it has the size at which the image enters the sweep, and
/// where the image is not resized it is the image itself. What resizing
/// makes of the bytes is left to the resampling filter.
pub open spec fn is_sweep_source(
    source: Seq<u8>,
    pixels: Seq<u8>,
    width: int,
    height: int,
    target_size: (u32, u32),
) -> bool {
    let size = entering_size(width, height, target_size);
    &&& source.len() == byte_len(size.0, size.1)
    &&& !is_resized(width, height, target_size) ==> source == pixels
}

/// `sweep` is the whole sweep over the image with the given bytes and
/// size: its directory is the output directory joined with the stem, and
/// it holds `blur_number * darken_number` variants in row-major order, all
/// drawn from one source at the size at which the image enters the sweep.
pub open spec fn is_sweep(
    sweep: Sweep,
    stem: Seq<char>,
    output_dir: Seq<char>,
    method: Method,
    pixels: Seq<u8>,
    width: int,
    height: int,
    target_size: (u32, u32),
    plan: Plan,
) -> bool {
    let size = entering_size(width, height, target_size);
    &&& sweep.directory@ == joined(output_dir, stem)
    &&& exists|source: Seq<u8>|
        is_sweep_source(source, pixels, width, height, target_size) && #[trigger] is_sweep_prefix(
            sweep.variants@,
            plan.count(),
            sweep.directory@,
            method,
            source,
            size.0,
            size.1,
            plan,
        )
}

/// Runs the sweep on `base_image`: the image is resized where its area
/// exceeds the target area, and every variant is drawn from the result.
pub fn generate_all_images(
    base_image: &PixelBuffer,
    file_stem: Option<&str>,
    target_size: (u32, u32),
    min_blur_radius: i32,
    blur_step: i32,
    blur_number: u8,
    min_darken_number: u8,
    darken_step: u8,
    darken_number: u8,
    method: Method,
    output_dir: &str,
) -> (r: Result<Sweep, LineartError>)
    requires
        base_image.wf(),
    ensures
        ({
            let plan = Plan {
                min_blur_radius,
                blur_step,
                blur_number,
                min_darken_number,
                darken_step,
                darken_number,
            };
            match all_images_error(
                stem_view(file_stem),
                base_image.width as int,
                base_image.height as int,
                target_size,
                plan,
            ) {
                Some(e) => r == Err::<Sweep, LineartError>(e),
                None => r matches Ok(sweep) && is_sweep(
                    sweep,
                    stem_view(file_stem)->Some_0,
                    output_dir@,
                    method,
                    base_image@.pixels,
                    base_image.width as int,
                    base_image.height as int,
                    target_size,
                    plan,
                ),
            }
        }),
{
    let ghost plan = Plan {
        min_blur_radius,
        blur_step,
        blur_number,
        min_darken_number,
        darken_step,
        darken_number,
    };
    let ghost width = base_image.width as int;
    let ghost height = base_image.height as int;
    let directory = build_image_directory_path(file_stem, output_dir)?;
    let size = target_dimensions(base_image.width, base_image.height, target_size);
    let ghost entering = entering_size(width, height, target_size);
    proof {
        lemma_area_bound(size.0 as int, size.1 as int);
    }
    if blur_number == 0 || darken_number == 0 {
        assert(blur_number * darken_number == 0) by (nonlinear_arith)
            requires
                blur_number == 0 || darken_number == 0,
        ;
        let sweep = Sweep { directory, variants: Vec::new() };
        proof {
            let fitting = if is_resized(width, height, target_size) {
                Seq::new(byte_len(entering.0, entering.1) as nat, |i: int| 0u8)
            } else {
                base_image@.pixels
            };
            assert(is_sweep_prefix(
                sweep.variants@,
                plan.count(),
                sweep.directory@,
                method,
                fitting,
                entering.0,
                entering.1,
                plan,
            ));
        }
        return Ok(sweep);
    }
    assert(blur_number * darken_number != 0) by (nonlinear_arith)
        requires
            blur_number > 0,
            darken_number > 0,
    ;
    if !check_radii(min_blur_radius, blur_step, blur_number) {
        return Err(LineartError::InvalidBlurRadius);
    }
    if !check_levels(min_darken_number, darken_step, darken_number) {
        return Err(LineartError::InvalidDarkenLevel);
    }
    if size.0 < 2 || size.1 < 2 {
        return Err(LineartError::ImageTooSmall);
    }
    if (size.0 as u64) * (size.1 as u64) > 0x3fff_ffff {
        return Err(LineartError::ImageTooLarge);
    }
    let source = if size.0 != base_image.width || size.1 != base_image.height {
        proof {
            lemma_area_bound(base_image.width as int, size.1 as int);
        }
        let between: u128 = 16 * ((base_image.width as u128) * (size.1 as u128));
        if between > isize::MAX as u128 {
            return Err(LineartError::ImageTooLarge);
        }
        resize_lanczos3(base_image, size.0, size.1)
    } else {
        base_image.duplicate()
    };
    let variants = sweep_variants(
        &source,
        directory.as_str(),
        min_blur_radius,
        blur_step,
        blur_number,
        min_darken_number,
        darken_step,
        darken_number,
        method,
    )?;
    let sweep = Sweep { directory, variants };
    proof {
        assert(is_sweep_prefix(
            sweep.variants@,
            plan.count(),
            sweep.directory@,
            method,
            source@.pixels,
            entering.0,
            entering.1,
            plan,
        ));
    }
    Ok(sweep)
}

/// Lays the cells of a sweep out on a contact sheet. The cells are taken
/// in row-major order, one row per blur radius; the first cell gives the
/// size of the grid. The labels are placed, not drawn.
pub fn generate_image_grid(
    min_blur_radius: i32,
    blur_step: i32,
    blur_number: u8,
    min_darken_number: u8,
    darken_step: u8,
    darken_number: u8,
    input_dir: &str,
    cells: &Vec<Variant>,
) -> (r: Result<ContactSheet, LineartError>)
    requires
        forall|k: int| 0 <= k < cells@.len() ==> (#[trigger] cells@[k]).image.wf(),
    ensures
        ({
            let plan = Plan {
                min_blur_radius,
                blur_step,
                blur_number,
                min_darken_number,
                darken_step,
                darken_number,
            };
            match grid_error(cells@, plan) {
                Some(e) => r == Err::<ContactSheet, LineartError>(e),
                None => r matches Ok(sheet) && is_sheet(sheet, cells@, input_dir@, plan),
            }
        }),
{
    let ghost plan = Plan {
        min_blur_radius,
        blur_step,
        blur_number,
        min_darken_number,
        darken_step,
        darken_number,
    };
    assert(blur_number * darken_number <= 255 * 255 && (blur_number * darken_number == 0 <==> (
    blur_number == 0 || darken_number == 0))) by (nonlinear_arith)
        requires
            0 <= blur_number <= 255,
            0 <= darken_number <= 255,
    ;
    let count: usize = (blur_number as usize) * (darken_number as usize);
    if count == 0 || cells.len() != count {
        return Err(LineartError::MissingCell);
    }
    let cell_width: u32 = cells[0].image.width;
    let cell_height: u32 = cells[0].image.height;
    let sheet_width: u64 = column_left(cell_width, darken_number as u16);
    let sheet_height: u64 = row_top(cell_height, blur_number as u16);
    if sheet_width > 0xffff_ffff || sheet_height > 0xffff_ffff {
        return Err(LineartError::SheetTooLarge);
    }
    let mut canvas = match new_canvas(sheet_width as u32, sheet_height as u32) {
        Some(canvas) => canvas,
        None => {
            return Err(LineartError::SheetTooLarge);
        },
    };
    let ghost w = cell_width as int;
    let ghost h = cell_height as int;
    let ghost sw = sheet_width as int;
    let ghost sh = sheet_height as int;
    let mut k: usize = 0;
    while k < count
        invariant
            k <= count,
            count == cells@.len(),
            count == blur_number * darken_number,
            darken_number > 0,
            w == cell_width,
            h == cell_height,
            sw == sheet_width,
            sh == sheet_height,
            canvas.width == sheet_width,
            canvas.height == sheet_height,
            canvas.wf(),
            forall|i: int| 0 <= i < cells@.len() ==> (#[trigger] cells@[i]).image.wf(),
            canvas@.pixels == composed(cells@, k as nat, sw, sh, w, h, darken_number as int),
        decreases count - k,
    {
        let column: usize = k % (darken_number as usize);
        let row: usize = k / (darken_number as usize);
        assert(row <= 255) by (nonlinear_arith)
            requires
                row == k / (darken_number as usize),
                k < blur_number * darken_number,
                0 < darken_number,
                blur_number <= 255,
        ;
        let x: u64 = column_left(cell_width, column as u16);
        let y: u64 = row_top(cell_height, row as u16);
        place(&mut canvas, &cells[k].image, x, y);
        k += 1;
    }
    let mut labels: Vec<Label> = Vec::new();
    let top: u64 = row_top(cell_height, 0);
    labels.push(Label { text: String::from_str("Blur"), x: 0, y: top as i64 });
    labels.push(
        Label {
            text: String::from_str("Darken"),
            x: (cell_width / 3) as i64,
            y: (top - (cell_height as u64) / 3) as i64,
        },
    );
    labels.push(make_row_label(cell_width, cell_height, min_blur_radius, blur_step, 0));
    let mut column: u8 = 0;
    while column < darken_number
        invariant
            column <= darken_number,
            w == cell_width,
            h == cell_height,
            plan == (Plan {
                min_blur_radius,
                blur_step,
                blur_number,
                min_darken_number,
                darken_step,
                darken_number,
            }),
            labels@.len() == 3 + column,
            forall|i: int|
                0 <= i < labels@.len() ==> is_label(
                    #[trigger] labels@[i],
                    sheet_label(i, w, h, plan),
                ),
        decreases darken_number - column,
    {
        labels.push(
            make_column_label(cell_width, cell_height, min_darken_number, darken_step, column),
        );
        column += 1;
    }
    let mut row: u8 = 1;
    while row < blur_number
        invariant
            1 <= row <= blur_number,
            w == cell_width,
            h == cell_height,
            plan == (Plan {
                min_blur_radius,
                blur_step,
                blur_number,
                min_darken_number,
                darken_step,
                darken_number,
            }),
            labels@.len() == 2 + darken_number + row,
            forall|i: int|
                0 <= i < labels@.len() ==> is_label(
                    #[trigger] labels@[i],
                    sheet_label(i, w, h, plan),
                ),
        decreases blur_number - row,
    {
        labels.push(make_row_label(cell_width, cell_height, min_blur_radius, blur_step, row));
        row += 1;
    }
    Ok(
        ContactSheet {
            path: join_path(input_dir, "summary.png"),
            canvas,
            labels,
            text_scale: cell_width / 3,
        },
    )
}

/// Why the sweep and its contact sheet cannot be generated, if they
/// cannot: the images cannot be, or the sheet cannot be made of them.
pub open spec fn images_and_grid_error(
    file_stem: Option<Seq<char>>,
    width: int,
    height: int,
    target_size: (u32, u32),
    plan: Plan,
) -> Option<LineartError> {
    let size = entering_size(width, height, target_size);
    match all_images_error(file_stem, width, height, target_size, plan) {
        Some(e) => Some(e),
        None => sheet_error(plan.count(), size.0, size.1, plan),
    }
}

/// Runs the whole sweep on `base_image` and lays its variants out on a
/// contact sheet.
pub fn generate_images_and_grid(
    base_image: &PixelBuffer,
    file_stem: Option<&str>,
    target_size: (u32, u32),
    min_blur_radius: i32,
    blur_step: i32,
    blur_number: u8,
    min_darken_number: u8,
    darken_step: u8,
    darken_number: u8,
    method: Method,
    output_dir: &str,
) -> (r: Result<Generated, LineartError>)
    requires
        base_image.wf(),
    ensures
        ({
            let plan = Plan {
                min_blur_radius,
                blur_step,
                blur_number,
                min_darken_number,
                darken_step,
                darken_number,
            };
            match images_and_grid_error(
                stem_view(file_stem),
                base_image.width as int,
                base_image.height as int,
                target_size,
                plan,
            ) {
                Some(e) => r == Err::<Generated, LineartError>(e),
                None => r matches Ok(generated) && is_sweep(
                    generated.sweep,
                    stem_view(file_stem)->Some_0,
                    output_dir@,
                    method,
                    base_image@.pixels,
                    base_image.width as int,
                    base_image.height as int,
                    target_size,
                    plan,
                ) && is_sheet(
                    generated.sheet,
                    generated.sweep.variants@,
                    generated.sweep.directory@,
                    plan,
                ),
            }
        }),
{
    let sweep = generate_all_images(
        base_image,
        file_stem,
        target_size,
        min_blur_radius,
        blur_step,
        blur_number,
        min_darken_number,
        darken_step,
        darken_number,
        method,
        output_dir,
    )?;
    let sheet = generate_image_grid(
        min_blur_radius,
        blur_step,
        blur_number,
        min_darken_number,
        darken_step,
        darken_number,
        sweep.directory.as_str(),
        &sweep.variants,
    )?;
    Ok(Generated { sweep, sheet })
}

/// A sweep holds a variant for every pair of a row and a column: the
/// variant of row `row` and column `column` stands at index
/// `row * darken_number + column`.
pub proof fn lemma_sweep_covers_product(
    variants: Seq<Variant>,
    dir: Seq<char>,
    method: Method,
    source: Seq<u8>,
    width: int,
    height: int,
    plan: Plan,
    row: int,
    column: int,
)
    requires
        is_sweep_prefix(variants, plan.count(), dir, method, source, width, height, plan),
        0 <= row < plan.blur_number,
        0 <= column < plan.darken_number,
    ensures
        0 <= row * plan.darken_number + column < variants.len(),
        is_variant(
            variants[row * plan.darken_number + column],
            dir,
            method,
            source,
            width,
            height,
            plan.radius(row),
            plan.level(column),
        ),
{
    let columns = plan.darken_number as int;
    let rows = plan.blur_number as int;
    assert(0 <= row * columns && row * columns + columns <= rows * columns) by (nonlinear_arith)
        requires
            0 <= row < rows,
            0 < columns,
    ;
    lemma_fundamental_div_mod_converse(row * columns + column, columns, row, column);
}

/// No two variants of a sweep share a path, unless they share radius and
/// level: two places in the grid have different paths where their rows
/// differ and the blur step is not zero, or their columns differ and the
/// darken step is not zero.
pub proof fn lemma_sweep_paths_distinct(
    dir: Seq<char>,
    plan: Plan,
    row_1: int,
    column_1: int,
    row_2: int,
    column_2: int,
)
    requires
        (row_1 != row_2 && plan.blur_step != 0) || (column_1 != column_2 && plan.darken_step
            != 0),
    ensures
        image_output_path(dir, plan.radius(row_1), plan.level(column_1)) != image_output_path(
            dir,
            plan.radius(row_2),
            plan.level(column_2),
        ),
{
    let r1 = plan.radius(row_1);
    let r2 = plan.radius(row_2);
    let l1 = plan.level(column_1);
    let l2 = plan.level(column_2);
    let blur_step = plan.blur_step as int;
    let darken_step = plan.darken_step as int;
    if image_output_path(dir, r1, l1) == image_output_path(dir, r2, l2) {
        lemma_image_output_path_injective(dir, r1, l1, r2, l2);
        assert(row_1 == row_2 || blur_step == 0) by (nonlinear_arith)
            requires
                row_1 * blur_step == row_2 * blur_step,
        ;
        assert(column_1 == column_2 || darken_step == 0) by (nonlinear_arith)
            requires
                column_1 * darken_step == column_2 * darken_step,
        ;
    }
}

} // verus!
