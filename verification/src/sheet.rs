//! The contact sheet of a sweep: what it holds, where its labels stand and
//! how its canvas is made up of the cells.

use vstd::prelude::*;
use crate::buffer::{byte_len, PixelBuffer};
use crate::error::LineartError;
use crate::grid::{
    cell_left,
    cell_top,
    column_label_top,
    column_left,
    label_scale,
    lemma_cells_apart,
    lemma_pixel_index,
    pixel_start,
    placed,
    row_label_left,
    row_top,
    white_canvas,
};
use crate::image_generation::Variant;
use crate::paths::summary_path;
use crate::sweep::{blur_radius_at, darken_level_at, Plan};
use crate::text::{decimal, to_decimal};

verus! {

/// A piece of text to draw on the contact sheet, with the corner at which
/// it starts.
#[derive(Debug)]
pub struct Label {
    pub text: String,
    pub x: i64,
    pub y: i64,
}

/// The contact sheet of a sweep: the canvas with every cell in place, the
/// labels that are still to be drawn on it, the size of their text, and the
/// path of the file it is to be saved in.
#[derive(Debug)]
pub struct ContactSheet {
    pub path: String,
    pub canvas: PixelBuffer,
    pub labels: Vec<Label>,
    pub text_scale: u32,
}

/// The label beside row `row`: the row's blur radius, in the left margin,
/// half a cell below the row's top.
pub open spec fn row_label(cell_width: int, cell_height: int, plan: Plan, row: int) -> (
    Seq<char>,
    int,
    int,
) {
    (
        decimal(plan.radius(row)),
        row_label_left(cell_width),
        cell_top(cell_height, row) + cell_height / 2,
    )
}

/// The label above column `column`: the column's darken level, half a cell
/// right of the column's left edge, on the line of the column labels.
pub open spec fn column_label(cell_width: int, cell_height: int, plan: Plan, column: int) -> (
    Seq<char>,
    int,
    int,
) {
    (
        decimal(plan.level(column)),
        cell_left(cell_width, column) + cell_width / 2,
        column_label_top(cell_height),
    )
}

/// Text and place of the sheet's label number `k`. The labels come in the
/// order in which the sheet is gone through: the two axis titles, the
/// label of the first row, the labels of the columns, the labels of the
/// other rows.
pub open spec fn sheet_label(k: int, cell_width: int, cell_height: int, plan: Plan) -> (
    Seq<char>,
    int,
    int,
) {
    if k == 0 {
        ("Blur"@, 0, cell_top(cell_height, 0))
    } else if k == 1 {
        ("Darken"@, cell_width / 3, column_label_top(cell_height))
    } else if k == 2 {
        row_label(cell_width, cell_height, plan, 0)
    } else if k < 3 + plan.darken_number {
        column_label(cell_width, cell_height, plan, k - 3)
    } else {
        row_label(cell_width, cell_height, plan, k - 2 - plan.darken_number)
    }
}

/// `label` has the given text and place.
pub open spec fn is_label(label: Label, expected: (Seq<char>, int, int)) -> bool {
    label.text@ == expected.0 && label.x == expected.1 && label.y == expected.2
}

/// The canvas after the first `count` cells were put on it, row by row:
/// cell `k` goes to column `k % darken_number` of row `k / darken_number`.
/// The grid is spaced by the size of the first cell.
pub open spec fn composed(
    cells: Seq<Variant>,
    count: nat,
    sheet_width: int,
    sheet_height: int,
    cell_width: int,
    cell_height: int,
    darken_number: int,
) -> Seq<u8>
    decreases count,
{
    if count == 0 {
        white_canvas(sheet_width, sheet_height)
    } else {
        let k = count - 1;
        let cell = cells[k].image;
        placed(
            composed(
                cells,
                k as nat,
                sheet_width,
                sheet_height,
                cell_width,
                cell_height,
                darken_number,
            ),
            sheet_width,
            cell@.pixels,
            cell.width as int,
            cell.height as int,
            cell_left(cell_width, k % darken_number),
            cell_top(cell_height, k / darken_number),
        )
    }
}

/// Why no contact sheet can be made of `cell_count` cells of which the
/// first has the given size, if none can: the sweep is empty or the cells
/// are not as many as its variants, or the sheet would be too large.
pub open spec fn sheet_error(cell_count: int, cell_width: int, cell_height: int, plan: Plan) -> Option<
    LineartError,
> {
    let sheet_width = cell_left(cell_width, plan.darken_number as int);
    let sheet_height = cell_top(cell_height, plan.blur_number as int);
    if plan.count() == 0 || cell_count != plan.count() {
        Some(LineartError::MissingCell)
    } else if sheet_width > u32::MAX || sheet_height > u32::MAX || byte_len(
        sheet_width,
        sheet_height,
    ) > isize::MAX {
        Some(LineartError::SheetTooLarge)
    } else {
        None
    }
}

/// Why no contact sheet can be made of `cells`, if none can.
pub open spec fn grid_error(cells: Seq<Variant>, plan: Plan) -> Option<LineartError> {
    sheet_error(
        cells.len() as int,
        cells[0].image.width as int,
        cells[0].image.height as int,
        plan,
    )
}

/// `sheet` is the contact sheet of `cells`: a canvas of the sheet's size
/// with every cell in place, the `2 + blur_number + darken_number` labels
/// in order, text a third of a cell wide, and the path `summary.png`
/// below the directory.
pub open spec fn is_sheet(sheet: ContactSheet, cells: Seq<Variant>, dir: Seq<char>, plan: Plan) -> bool {
    let cell_width = cells[0].image.width as int;
    let cell_height = cells[0].image.height as int;
    &&& sheet.path@ == summary_path(dir)
    &&& sheet.canvas.width == cell_left(cell_width, plan.darken_number as int)
    &&& sheet.canvas.height == cell_top(cell_height, plan.blur_number as int)
    &&& sheet.canvas.wf()
    &&& sheet.canvas@.pixels == composed(
        cells,
        cells.len(),
        sheet.canvas.width as int,
        sheet.canvas.height as int,
        cell_width,
        cell_height,
        plan.darken_number as int,
    )
    &&& sheet.text_scale == label_scale(cell_width)
    &&& sheet.labels@.len() == 2 + plan.blur_number + plan.darken_number
    &&& forall|k: int|
        0 <= k < sheet.labels@.len() ==> is_label(
            #[trigger] sheet.labels@[k],
            sheet_label(k, cell_width, cell_height, plan),
        )
}

pub(crate) fn make_row_label(
    cell_width: u32,
    cell_height: u32,
    min_blur_radius: i32,
    blur_step: i32,
    row: u8,
) -> (label: Label)
    ensures
        label.text@ == decimal(
            blur_radius_at(min_blur_radius as int, blur_step as int, row as int),
        ),
        label.x == row_label_left(cell_width as int),
        label.y == cell_top(cell_height as int, row as int) + cell_height / 2,
{
    assert(-0x8000_0000 * 255 <= row * blur_step <= 0x8000_0000 * 255) by (nonlinear_arith)
        requires
            0 <= row <= 255,
            -0x8000_0000 <= blur_step < 0x8000_0000,
    ;
    let radius: i64 = (min_blur_radius as i64) + (row as i64) * (blur_step as i64);
    let left: u64 = ((cell_width as u64) * 13) / 20;
    let top: u64 = row_top(cell_height, row as u16) + (cell_height as u64) / 2;
    Label { text: to_decimal(radius), x: left as i64, y: top as i64 }
}

pub(crate) fn make_column_label(
    cell_width: u32,
    cell_height: u32,
    min_darken_number: u8,
    darken_step: u8,
    column: u8,
) -> (label: Label)
    ensures
        label.text@ == decimal(
            darken_level_at(min_darken_number as int, darken_step as int, column as int),
        ),
        label.x == cell_left(cell_width as int, column as int) + cell_width / 2,
        label.y == column_label_top(cell_height as int),
{
    assert(0 <= column * darken_step <= 255 * 255) by (nonlinear_arith)
        requires
            0 <= column <= 255,
            0 <= darken_step <= 255,
    ;
    let level: i64 = (min_darken_number as i64) + (column as i64) * (darken_step as i64);
    let left: u64 = column_left(cell_width, column as u16) + (cell_width as u64) / 2;
    let first_top: u64 = row_top(cell_height, 0);
    assert(first_top == (cell_height * 6) / 10);
    let top: u64 = first_top - (cell_height as u64) / 3;
    Label { text: to_decimal(level), x: left as i64, y: top as i64 }
}

/// The first `count` cells all have the given size.
pub open spec fn cells_of_size(
    cells: Seq<Variant>,
    count: int,
    cell_width: int,
    cell_height: int,
) -> bool {
    &&& count <= cells.len()
    &&& forall|k: int|
        0 <= k < count ==> {
            let image = (#[trigger] cells[k]).image;
            image.width == cell_width && image.height == cell_height && image.wf()
        }
}

/// Whether the pixel of byte `at` of the sheet lies under cell `k`.
pub open spec fn under_cell(
    at: int,
    sheet_width: int,
    cell_width: int,
    cell_height: int,
    columns: int,
    k: int,
) -> bool {
    let column = (at / 4) % sheet_width;
    let row = (at / 4) / sheet_width;
    let left = cell_left(cell_width, k % columns);
    let top = cell_top(cell_height, k / columns);
    left <= column < left + cell_width && top <= row < top + cell_height
}

/// Putting cells on a canvas does not change its length.
pub proof fn lemma_composed_len(
    cells: Seq<Variant>,
    count: nat,
    sheet_width: int,
    sheet_height: int,
    cell_width: int,
    cell_height: int,
    columns: int,
)
    requires
        0 <= byte_len(sheet_width, sheet_height),
    ensures
        composed(cells, count, sheet_width, sheet_height, cell_width, cell_height, columns).len()
            == byte_len(sheet_width, sheet_height),
    decreases count,
{
    if count > 0 {
        lemma_composed_len(
            cells,
            (count - 1) as nat,
            sheet_width,
            sheet_height,
            cell_width,
            cell_height,
            columns,
        );
    }
}

/// Cell `k` of a grid with `columns` columns stands in row `k / columns`
/// and column `k % columns`, and no other cell stands there.
pub proof fn lemma_cell_place(k: int, count: int, rows: int, columns: int)
    requires
        0 <= k < count <= rows * columns,
        0 < columns,
    ensures
        0 <= k % columns < columns,
        0 <= k / columns < rows,
        k == (k / columns) * columns + k % columns,
{
    let row = k / columns;
    let column = k % columns;
    assert(k == row * columns + column && 0 <= column < columns) by (nonlinear_arith)
        requires
            row == k / columns,
            column == k % columns,
            0 < columns,
    ;
    assert(0 <= row < rows) by (nonlinear_arith)
        requires
            k == row * columns + column,
            0 <= column < columns,
            0 <= k < rows * columns,
    ;
}

/// On a sheet of cells of one size every cell shows whole and unchanged:
/// pixel `(x, y)` of cell `k` is the pixel of the sheet that lies `x` right
/// of the left edge of the cell's column and `y` below the top edge of its
/// row.
pub proof fn lemma_sheet_shows_cell(
    cells: Seq<Variant>,
    count: nat,
    rows: int,
    columns: int,
    cell_width: int,
    cell_height: int,
    k: int,
    x: int,
    y: int,
    channel: int,
)
    requires
        0 < columns,
        count <= rows * columns,
        cells_of_size(cells, count as int, cell_width, cell_height),
        0 <= k < count,
        0 <= x < cell_width,
        0 <= y < cell_height,
        0 <= channel < 4,
    ensures
        ({
            let sheet_width = cell_left(cell_width, columns);
            let sheet_height = cell_top(cell_height, rows);
            let sheet = composed(
                cells,
                count,
                sheet_width,
                sheet_height,
                cell_width,
                cell_height,
                columns,
            );
            let at = pixel_start(
                sheet_width,
                cell_left(cell_width, k % columns) + x,
                cell_top(cell_height, k / columns) + y,
            ) + channel;
            0 <= at < sheet.len() && sheet[at] == cells[k].image@.pixels[pixel_start(cell_width, x, y)
                + channel]
        }),
    decreases count,
{
    let sheet_width = cell_left(cell_width, columns);
    let sheet_height = cell_top(cell_height, rows);
    let last = count - 1;
    let before = composed(
        cells,
        last as nat,
        sheet_width,
        sheet_height,
        cell_width,
        cell_height,
        columns,
    );
    lemma_cell_place(k, count as int, rows, columns);
    lemma_cell_place(last, count as int, rows, columns);
    let column = cell_left(cell_width, k % columns) + x;
    let row = cell_top(cell_height, k / columns) + y;
    lemma_cells_apart(cell_width, k % columns, columns);
    lemma_cells_apart(cell_height, k / columns, rows);
    lemma_pixel_index(sheet_width, sheet_height, column, row, channel);
    lemma_composed_len(cells, last as nat, sheet_width, sheet_height, cell_width, cell_height,
        columns);
    let at = pixel_start(sheet_width, column, row) + channel;
    assert(cells[last].image.width == cell_width && cells[last].image.height == cell_height);
    if k == last {
        assert(pixel_start(cell_width, x, y) + channel == 4 * ((row - cell_top(
            cell_height,
            k / columns,
        )) * cell_width + (column - cell_left(cell_width, k % columns))) + at % 4);
    } else {
        if k % columns < last % columns {
            lemma_cells_apart(cell_width, k % columns, last % columns);
        } else if last % columns < k % columns {
            lemma_cells_apart(cell_width, last % columns, k % columns);
        } else if k / columns < last / columns {
            lemma_cells_apart(cell_height, k / columns, last / columns);
        } else if last / columns < k / columns {
            lemma_cells_apart(cell_height, last / columns, k / columns);
        }
        assert(!under_cell(at, sheet_width, cell_width, cell_height, columns, last));
        lemma_sheet_shows_cell(
            cells,
            last as nat,
            rows,
            columns,
            cell_width,
            cell_height,
            k,
            x,
            y,
            channel,
        );
    }
}

/// On a sheet of cells the ground is white: a byte whose pixel lies under
/// none of the cells is 255.
pub proof fn lemma_sheet_ground_is_white(
    cells: Seq<Variant>,
    count: nat,
    sheet_width: int,
    sheet_height: int,
    cell_width: int,
    cell_height: int,
    columns: int,
    at: int,
)
    requires
        cells_of_size(cells, count as int, cell_width, cell_height),
        0 <= at < byte_len(sheet_width, sheet_height),
        forall|k: int|
            0 <= k < count ==> !#[trigger] under_cell(
                at,
                sheet_width,
                cell_width,
                cell_height,
                columns,
                k,
            ),
    ensures
        composed(cells, count, sheet_width, sheet_height, cell_width, cell_height, columns)[at]
            == 255,
    decreases count,
{
    if count > 0 {
        let last = count - 1;
        lemma_composed_len(
            cells,
            last as nat,
            sheet_width,
            sheet_height,
            cell_width,
            cell_height,
            columns,
        );
        assert(!under_cell(at, sheet_width, cell_width, cell_height, columns, last));
        assert(cells[last].image.width == cell_width && cells[last].image.height == cell_height);
        lemma_sheet_ground_is_white(
            cells,
            last as nat,
            sheet_width,
            sheet_height,
            cell_width,
            cell_height,
            columns,
            at,
        );
    }
}

} // verus!
