//! The contact sheet: where each cell and each label goes, and the canvas
//! with the cells in place.

use vstd::prelude::*;
use vstd::arithmetic::div_mod::lemma_fundamental_div_mod_converse;
use crate::buffer::{byte_len, lemma_area_bound, PixelBuffer};

verus! {

/// The left edge of column `column`: cells are spaced 1.2 cell widths
/// apart, to the right of a margin of 1.3 cell widths. With `column` at
/// the number of columns this is the width of the whole sheet.
pub open spec fn cell_left(cell_width: int, column: int) -> int {
    (cell_width * (12 * column + 13)) / 10
}

/// The top edge of row `row`: cells are spaced 1.1 cell heights apart,
/// below a margin of 0.6 cell heights. With `row` at the number of rows
/// this is the height of the whole sheet.
pub open spec fn cell_top(cell_height: int, row: int) -> int {
    (cell_height * (11 * row + 6)) / 10
}

/// The line on which the column labels stand: a third of a cell height
/// above the first row.
pub open spec fn column_label_top(cell_height: int) -> int {
    cell_top(cell_height, 0) - cell_height / 3
}

/// The left edge of the row labels: the middle of the left margin.
pub open spec fn row_label_left(cell_width: int) -> int {
    (cell_width * 13) / 20
}

/// The size of the labels' text: a third of a cell width.
pub open spec fn label_scale(cell_width: int) -> int {
    cell_width / 3
}

/// Cells of one size do not touch: a later column starts at least a cell
/// width after an earlier one, a later row at least a cell height below.
pub proof fn lemma_cells_apart(side: int, first: int, second: int)
    requires
        0 <= side,
        0 <= first < second,
    ensures
        cell_left(side, first) + side <= cell_left(side, second),
        cell_top(side, first) + side <= cell_top(side, second),
        0 <= cell_left(side, first),
        0 <= cell_top(side, first),
{
    let left = side * (12 * first + 13);
    let top = side * (11 * first + 6);
    assert(side * (12 * second + 13) >= left + 10 * side && left >= 0) by (nonlinear_arith)
        requires
            left == side * (12 * first + 13),
            0 <= side,
            0 <= first < second,
    ;
    assert(side * (11 * second + 6) >= top + 10 * side && top >= 0) by (nonlinear_arith)
        requires
            top == side * (11 * first + 6),
            0 <= side,
            0 <= first < second,
    ;
}

/// A canvas of the given size in which every byte is 255: opaque white.
pub open spec fn white_canvas(width: int, height: int) -> Seq<u8> {
    Seq::new(byte_len(width, height) as nat, |k: int| 255u8)
}

/// The canvas after a cell was put on it with its top left corner at
/// `(x, y)`: inside the cell's rectangle the cell's bytes stand in place
/// of the canvas's, elsewhere the canvas is unchanged. What of the cell
/// lies beyond the canvas is dropped.
pub open spec fn placed(
    canvas: Seq<u8>,
    canvas_width: int,
    cell: Seq<u8>,
    cell_width: int,
    cell_height: int,
    x: int,
    y: int,
) -> Seq<u8> {
    Seq::new(
        canvas.len(),
        |k: int|
            {
                let column = (k / 4) % canvas_width;
                let row = (k / 4) / canvas_width;
                if x <= column < x + cell_width && y <= row < y + cell_height {
                    cell[4 * ((row - y) * cell_width + (column - x)) + k % 4]
                } else {
                    canvas[k]
                }
            },
    )
}

/// The left edge of column `column`.
pub fn column_left(cell_width: u32, column: u16) -> (x: u64)
    requires
        column <= 256,
    ensures
        x == cell_left(cell_width as int, column as int),
        x <= 0xffff_ffff * 309,
{
    let factor: u64 = 12 * (column as u64) + 13;
    assert(cell_width * factor <= 0xffff_ffff * 3085) by (nonlinear_arith)
        requires
            0 <= cell_width <= 0xffff_ffff,
            0 <= factor <= 3085,
    ;
    ((cell_width as u64) * factor) / 10
}

/// The top edge of row `row`.
pub fn row_top(cell_height: u32, row: u16) -> (y: u64)
    requires
        row <= 256,
    ensures
        y == cell_top(cell_height as int, row as int),
        y <= 0xffff_ffff * 283,
{
    let factor: u64 = 11 * (row as u64) + 6;
    assert(cell_height * factor <= 0xffff_ffff * 2822) by (nonlinear_arith)
        requires
            0 <= cell_height <= 0xffff_ffff,
            0 <= factor <= 2822,
    ;
    ((cell_height as u64) * factor) / 10
}

/// A white canvas of the given size, unless it has more bytes than a
/// vector can hold.
pub fn new_canvas(width: u32, height: u32) -> (r: Option<PixelBuffer>)
    ensures
        r is Some <==> byte_len(width as int, height as int) <= isize::MAX,
        r matches Some(canvas) ==> canvas.width == width && canvas.height == height
            && canvas.wf() && canvas@.pixels == white_canvas(width as int, height as int),
{
    proof {
        lemma_area_bound(width as int, height as int);
    }
    let bytes: u128 = 4 * ((width as u128) * (height as u128));
    if bytes > isize::MAX as u128 {
        return None;
    }
    let data: Vec<u8> = vec![255u8; bytes as usize];
    assert(data@ =~= white_canvas(width as int, height as int));
    Some(PixelBuffer { width, height, data })
}

/// The bytes of pixel `(column, row)` start at `4 * (row * width + column)`
/// and lie within a buffer that is `width` wide and higher than `row`.
pub proof fn lemma_pixel_index(width: int, height: int, column: int, row: int, channel: int)
    requires
        0 <= column < width,
        0 <= row < height,
        0 <= channel < 4,
    ensures
        0 <= 4 * (row * width + column) + channel < byte_len(width, height),
        (4 * (row * width + column) + channel) % 4 == channel,
        ((4 * (row * width + column) + channel) / 4) % width == column,
        ((4 * (row * width + column) + channel) / 4) / width == row,
{
    let pixel = row * width + column;
    assert(0 <= row * width && row * width + width <= height * width && height * width == width
        * height) by (nonlinear_arith)
        requires
            0 <= row < height,
            0 < width,
    ;
    lemma_fundamental_div_mod_converse(4 * pixel + channel, 4, pixel, channel);
    lemma_fundamental_div_mod_converse(pixel, width, row, column);
}

/// The index of the first byte of pixel `(column, row)` in a buffer that is
/// `width` wide.
pub open spec fn pixel_start(width: int, column: int, row: int) -> int {
    4 * (row * width + column)
}

/// The canvas with the four bytes from `to` on replaced by the four bytes
/// of the cell from `from` on.
pub open spec fn with_pixel(canvas: Seq<u8>, to: int, cell: Seq<u8>, from: int) -> Seq<u8> {
    Seq::new(
        canvas.len(),
        |k: int|
            if to <= k < to + 4 {
                cell[from + (k - to)]
            } else {
                canvas[k]
            },
    )
}

/// Copies one pixel of `cell` to one pixel of `canvas`.
pub fn copy_pixel(
    canvas: &mut PixelBuffer,
    cell: &PixelBuffer,
    to_column: u64,
    to_row: u64,
    from_column: u64,
    from_row: u64,
)
    requires
        old(canvas).wf(),
        cell.wf(),
        to_column < old(canvas).width,
        to_row < old(canvas).height,
        from_column < cell.width,
        from_row < cell.height,
    ensures
        final(canvas).same_size(old(canvas)),
        final(canvas).wf(),
        final(canvas)@.pixels == with_pixel(
            old(canvas)@.pixels,
            pixel_start(old(canvas).width as int, to_column as int, to_row as int),
            cell@.pixels,
            pixel_start(cell.width as int, from_column as int, from_row as int),
        ),
{
    let canvas_width: u64 = canvas.width as u64;
    let cell_width: u64 = cell.width as u64;
    proof {
        let cw = canvas.width as int;
        let ch = canvas.height as int;
        let w = cell.width as int;
        let h = cell.height as int;
        lemma_pixel_index(cw, ch, to_column as int, to_row as int, 3);
        lemma_pixel_index(w, h, from_column as int, from_row as int, 3);
        assert(to_row * cw >= 0 && from_row * w >= 0) by (nonlinear_arith)
            requires
                to_row >= 0,
                cw >= 0,
                from_row >= 0,
                w >= 0,
        ;
    }
    let to: usize = (4 * (to_row * canvas_width + to_column)) as usize;
    let from: usize = (4 * (from_row * cell_width + from_column)) as usize;
    canvas.data.set(to, cell.data[from]);
    canvas.data.set(to + 1, cell.data[from + 1]);
    canvas.data.set(to + 2, cell.data[from + 2]);
    canvas.data.set(to + 3, cell.data[from + 3]);
    assert(canvas@.pixels =~= with_pixel(old(canvas)@.pixels, to as int, cell@.pixels, from as int));
}

/// Whether byte `k` of the canvas belongs to a pixel that the copy has
/// reached: a pixel of the cell's first `rows` rows, or of the first
/// `columns` columns of the row after them, as far as the canvas spans
/// the cell.
pub open spec fn copied(
    k: int,
    canvas_width: int,
    x: int,
    y: int,
    span: int,
    rows: int,
    columns: int,
) -> bool {
    let column = (k / 4) % canvas_width;
    let row = (k / 4) / canvas_width;
    x <= column < x + span && (y <= row < y + rows || (row == y + rows && column < x + columns))
}

/// The canvas while a cell is being put on it: the bytes of the pixels that
/// the copy has reached are the cell's, the others are still the canvas's.
pub open spec fn partly_placed(
    canvas: Seq<u8>,
    canvas_width: int,
    cell: Seq<u8>,
    cell_width: int,
    x: int,
    y: int,
    span: int,
    rows: int,
    columns: int,
) -> Seq<u8> {
    Seq::new(
        canvas.len(),
        |k: int|
            if copied(k, canvas_width, x, y, span, rows, columns) {
                cell[4 * (((k / 4) / canvas_width - y) * cell_width + ((k / 4) % canvas_width - x))
                    + k % 4]
            } else {
                canvas[k]
            },
    )
}

/// Puts `cell` on `canvas` with its top left corner at `(x, y)`.
pub fn place(canvas: &mut PixelBuffer, cell: &PixelBuffer, x: u64, y: u64)
    requires
        old(canvas).wf(),
        cell.wf(),
    ensures
        final(canvas).same_size(old(canvas)),
        final(canvas).wf(),
        final(canvas)@.pixels == placed(
            old(canvas)@.pixels,
            old(canvas).width as int,
            cell@.pixels,
            cell.width as int,
            cell.height as int,
            x as int,
            y as int,
        ),
{
    let canvas_width: u64 = canvas.width as u64;
    let canvas_height: u64 = canvas.height as u64;
    let ghost before = canvas@.pixels;
    let ghost cw = canvas.width as int;
    let ghost ch = canvas.height as int;
    let ghost w = cell.width as int;
    let ghost h = cell.height as int;
    let columns: u64 = if x >= canvas_width {
        0
    } else if (cell.width as u64) < canvas_width - x {
        cell.width as u64
    } else {
        canvas_width - x
    };
    let rows: u64 = if y >= canvas_height || columns == 0 {
        0
    } else if (cell.height as u64) < canvas_height - y {
        cell.height as u64
    } else {
        canvas_height - y
    };
    assert(canvas@.pixels =~= partly_placed(before, cw, cell@.pixels, w, x as int, y as int, columns as int, 0, 0));
    let mut row: u64 = 0;
    while row < rows
        invariant
            row <= rows,
            rows <= cell.height,
            columns <= cell.width,
            rows > 0 ==> y + rows <= canvas.height && x + columns <= canvas.width,
            cw == canvas.width,
            ch == canvas.height,
            w == cell.width,
            h == cell.height,
            canvas.wf(),
            cell.wf(),
            canvas.same_size(old(canvas)),
            before.len() == canvas@.pixels.len(),
            canvas@.pixels == partly_placed(
                before,
                cw,
                cell@.pixels,
                w,
                x as int,
                y as int,
                columns as int,
                row as int,
                0,
            ),
        decreases rows - row,
    {
        let mut column: u64 = 0;
        while column < columns
            invariant
                row < rows,
                column <= columns,
                rows <= cell.height,
                columns <= cell.width,
                y + rows <= canvas.height,
                x + columns <= canvas.width,
                cw == canvas.width,
                ch == canvas.height,
                w == cell.width,
                h == cell.height,
                canvas.wf(),
                cell.wf(),
                canvas.same_size(old(canvas)),
                before.len() == canvas@.pixels.len(),
                canvas@.pixels == partly_placed(
                    before,
                    cw,
                    cell@.pixels,
                    w,
                    x as int,
                    y as int,
                    columns as int,
                    row as int,
                    column as int,
                ),
            decreases columns - column,
        {
            let ghost prior = canvas@.pixels;
            copy_pixel(canvas, cell, x + column, y + row, column, row);
            proof {
                let to = pixel_start(cw, x + column, y + row);
                let next = partly_placed(
                    before,
                    cw,
                    cell@.pixels,
                    w,
                    x as int,
                    y as int,
                    columns as int,
                    row as int,
                    column + 1,
                );
                assert forall|k: int| 0 <= k < before.len() implies canvas@.pixels[k] == next[k] by {
                    lemma_byte_position(cw, ch, k);
                    if to <= k < to + 4 {
                        lemma_pixel_index(cw, ch, x + column, y + row, k - to);
                    } else {
                        assert(canvas@.pixels[k] == prior[k]);
                        if (k / 4) % cw == x + column && (k / 4) / cw == y + row {
                            assert(to <= k < to + 4);
                        }
                    }
                }
                assert(canvas@.pixels =~= next);
            }
            column += 1;
        }
        assert(canvas@.pixels =~= partly_placed(
            before,
            cw,
            cell@.pixels,
            w,
            x as int,
            y as int,
            columns as int,
            row + 1,
            0,
        ));
        row += 1;
    }
    proof {
        let whole = placed(before, cw, cell@.pixels, w, h, x as int, y as int);
        assert forall|k: int| 0 <= k < before.len() implies canvas@.pixels[k] == whole[k] by {
            lemma_byte_position(cw, ch, k);
        }
        assert(canvas@.pixels =~= whole);
    }
}

/// Byte `k` of a buffer belongs to a pixel within the buffer's width and
/// height, and is found again from that pixel's column, row and channel.
pub proof fn lemma_byte_position(width: int, height: int, k: int)
    requires
        0 <= width,
        0 <= height,
        0 <= k < byte_len(width, height),
    ensures
        0 <= (k / 4) % width < width,
        0 <= (k / 4) / width < height,
        k == 4 * (((k / 4) / width) * width + (k / 4) % width) + k % 4,
{
    let pixel = k / 4;
    assert(width > 0) by (nonlinear_arith)
        requires
            0 <= width,
            0 < 4 * (width * height),
    ;
    assert(0 <= pixel < width * height);
    let row = pixel / width;
    let column = pixel % width;
    assert(pixel == row * width + column && 0 <= column < width) by (nonlinear_arith)
        requires
            row == pixel / width,
            column == pixel % width,
            width > 0,
    ;
    assert(0 <= row < height) by (nonlinear_arith)
        requires
            pixel == row * width + column,
            0 <= column < width,
            0 <= pixel < width * height,
            width > 0,
    ;
}

} // verus!

