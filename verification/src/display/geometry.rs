//! Where the grid lies in the framebuffer.
//!
//! The framebuffer is `DISPLAY_LOGICAL_WIDTH` by `DISPLAY_LOGICAL_HEIGHT`
//! pixels of four bytes each, row after row. The grid does not tile it
//! evenly, so the cells start at a fixed offset from its top-left corner.

use super::error::BoundsError;
use super::{DISPLAY_COLUMNS, DISPLAY_LINES};
use vstd::prelude::*;

verus! {

/// Width of the framebuffer, in pixels.
pub const DISPLAY_LOGICAL_WIDTH: usize = 1280;

/// Height of the framebuffer, in pixels.
pub const DISPLAY_LOGICAL_HEIGHT: usize = 720;

/// Pixels left of the first column.
pub const COLUMN_OFFSET: usize = 10;

/// Pixels above the first line.
pub const ROW_OFFSET: usize = 10;

/// Height of a cell, in pixels.
pub const CELL_HEIGHT: usize = 28;

/// Width of a cell, in pixels.
pub const CELL_WIDTH: usize = 14;

/// Bytes of one RGBA8 pixel.
pub const BYTES_PER_PIXEL: usize = 4;

/// Bytes of the pixel block of one cell.
pub const CELL_BYTES: usize = CELL_WIDTH * CELL_HEIGHT * BYTES_PER_PIXEL;

/// Bytes of the framebuffer.
pub const FRAME_BYTES: usize = DISPLAY_LOGICAL_WIDTH * DISPLAY_LOGICAL_HEIGHT * BYTES_PER_PIXEL;

/// Whether a grid of `columns` by `lines` cells, each `cell_width` by
/// `cell_height` pixels, placed at `(column_offset, row_offset)`, lies
/// inside a framebuffer of `width` by `height` pixels.
pub open spec fn grid_fits_spec(
    columns: int,
    lines: int,
    cell_width: int,
    cell_height: int,
    column_offset: int,
    row_offset: int,
    width: int,
    height: int,
) -> bool {
    &&& column_offset + columns * cell_width <= width
    &&& row_offset + lines * cell_height <= height
}

/// Horizontal position of the left edge of `column`.
pub open spec fn cell_left(column: int) -> int {
    column * CELL_WIDTH + COLUMN_OFFSET
}

/// Vertical position of the top edge of `row`.
pub open spec fn cell_top(row: int) -> int {
    row * CELL_HEIGHT + ROW_OFFSET
}

/// `a * b + c` where it does not exceed `limit`.
fn span_within(a: usize, b: usize, c: usize, limit: usize) -> (within: bool)
    ensures
        within == (c + a * b <= limit),
{
    match a.checked_mul(b) {
        Some(product) => match product.checked_add(c) {
            Some(end) => end <= limit,
            None => false,
        },
        None => false,
    }
}

/// Tells whether a grid of the given shape lies inside a framebuffer of
/// `width` by `height` pixels. A host calls this once, before its first
/// frame, with the shape it is about to use.
pub fn grid_fits(
    columns: usize,
    lines: usize,
    cell_width: usize,
    cell_height: usize,
    column_offset: usize,
    row_offset: usize,
    width: usize,
    height: usize,
) -> (fits: bool)
    ensures
        fits == grid_fits_spec(
            columns as int,
            lines as int,
            cell_width as int,
            cell_height as int,
            column_offset as int,
            row_offset as int,
            width as int,
            height as int,
        ),
{
    span_within(columns, cell_width, column_offset, width) && span_within(
        lines,
        cell_height,
        row_offset,
        height,
    )
}

/// Top-left pixel of the cell at `(column, row)`.
///
/// Fails when the column is out of range, or else when the row is. The
/// rectangle of a cell that is in range lies inside the framebuffer.
pub fn cell_origin(column: usize, row: usize) -> (result: Result<(usize, usize), BoundsError>)
    ensures
        column >= DISPLAY_COLUMNS ==> result == Err::<(usize, usize), BoundsError>(
            BoundsError::Column { column, limit: DISPLAY_COLUMNS },
        ),
        column < DISPLAY_COLUMNS && row >= DISPLAY_LINES ==> result == Err::<
            (usize, usize),
            BoundsError,
        >(BoundsError::Row { row, limit: DISPLAY_LINES }),
        column < DISPLAY_COLUMNS && row < DISPLAY_LINES ==> result == Ok::<
            (usize, usize),
            BoundsError,
        >((cell_left(column as int) as usize, cell_top(row as int) as usize)),
        column < DISPLAY_COLUMNS && row < DISPLAY_LINES ==> cell_left(column as int) + CELL_WIDTH
            <= DISPLAY_LOGICAL_WIDTH && cell_top(row as int) + CELL_HEIGHT
            <= DISPLAY_LOGICAL_HEIGHT,
{
    if column >= DISPLAY_COLUMNS {
        return Err(BoundsError::Column { column, limit: DISPLAY_COLUMNS });
    }
    if row >= DISPLAY_LINES {
        return Err(BoundsError::Row { row, limit: DISPLAY_LINES });
    }
    Ok((column * CELL_WIDTH + COLUMN_OFFSET, row * CELL_HEIGHT + ROW_OFFSET))
}

/// The grid of this crate lies inside its framebuffer. Should a constant
/// be changed so that it no longer does, this proof fails and the crate
/// does not verify.
pub proof fn lemma_grid_fits()
    ensures
        grid_fits_spec(
            DISPLAY_COLUMNS as int,
            DISPLAY_LINES as int,
            CELL_WIDTH as int,
            CELL_HEIGHT as int,
            COLUMN_OFFSET as int,
            ROW_OFFSET as int,
            DISPLAY_LOGICAL_WIDTH as int,
            DISPLAY_LOGICAL_HEIGHT as int,
        ),
{
}

/// In a grid that fits its framebuffer, the rectangle of every cell lies
/// inside the framebuffer.
pub proof fn lemma_fitting_grid_holds_each_cell(
    columns: int,
    lines: int,
    cell_width: int,
    cell_height: int,
    column_offset: int,
    row_offset: int,
    width: int,
    height: int,
    column: int,
    row: int,
)
    requires
        grid_fits_spec(
            columns,
            lines,
            cell_width,
            cell_height,
            column_offset,
            row_offset,
            width,
            height,
        ),
        0 <= cell_width,
        0 <= cell_height,
        0 <= column_offset,
        0 <= row_offset,
        0 <= column < columns,
        0 <= row < lines,
    ensures
        0 <= column_offset + column * cell_width,
        column_offset + column * cell_width + cell_width <= width,
        0 <= row_offset + row * cell_height,
        row_offset + row * cell_height + cell_height <= height,
{
    assert(0 <= column * cell_width && (column + 1) * cell_width <= columns * cell_width)
        by (nonlinear_arith)
        requires
            0 <= cell_width,
            0 <= column < columns,
    ;
    assert((column + 1) * cell_width == column * cell_width + cell_width) by (nonlinear_arith);
    assert(0 <= row * cell_height && (row + 1) * cell_height <= lines * cell_height)
        by (nonlinear_arith)
        requires
            0 <= cell_height,
            0 <= row < lines,
    ;
    assert((row + 1) * cell_height == row * cell_height + cell_height) by (nonlinear_arith);
}

} // verus!
