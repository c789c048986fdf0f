//! Blitting pixel blocks into the framebuffer and drawing the whole grid.

use super::cache::GlyphCache;
use super::error::RenderError;
use super::geometry::{
    cell_left, cell_origin, cell_top, BYTES_PER_PIXEL, CELL_HEIGHT, CELL_WIDTH, COLUMN_OFFSET,
    DISPLAY_LOGICAL_HEIGHT, DISPLAY_LOGICAL_WIDTH, FRAME_BYTES, ROW_OFFSET,
};
use super::glyph::{lemma_pixel_index, Glyph};
use super::image::{composed, Drawable};
use super::video_memory::{cell_index, VideoCell};
use super::{Display, DISPLAY_CELLS, DISPLAY_COLUMNS, DISPLAY_LINES};
use vstd::prelude::*;

verus! {

/// Horizontal position of the pixel that byte `i` of a framebuffer
/// belongs to.
pub open spec fn pixel_x(i: int) -> int {
    (i / BYTES_PER_PIXEL as int) % DISPLAY_LOGICAL_WIDTH as int
}

/// Vertical position of the pixel that byte `i` of a framebuffer belongs
/// to.
pub open spec fn pixel_y(i: int) -> int {
    (i / BYTES_PER_PIXEL as int) / DISPLAY_LOGICAL_WIDTH as int
}

/// Place in a framebuffer of the first byte of the pixel at `(x, y)`.
pub open spec fn pixel_start(x: int, y: int) -> int {
    BYTES_PER_PIXEL * (y * DISPLAY_LOGICAL_WIDTH + x)
}

/// One byte of a destination pixel after the source pixel that starts at
/// `source` in `pixels` was merged onto it: the byte `under` stays where
/// the alpha of the source pixel is 0, else the byte of the same channel
/// of the source pixel replaces it. Nothing is blended.
pub open spec fn merged_byte(under: u8, pixels: Seq<u8>, source: int, channel: int) -> u8 {
    if pixels[source + 3] == 0 {
        under
    } else {
        pixels[source + channel]
    }
}

/// Whether the pixel at `(x, y)` lies in the rectangle of `width` by
/// `height` pixels whose top-left corner is `(left, top)`.
pub open spec fn in_rectangle(x: int, y: int, left: int, top: int, width: int, height: int) -> bool {
    left <= x < left + width && top <= y < top + height
}

/// Byte `i` of `screen` once the first `rows` rows of a sprite, and the
/// first `columns` pixels of its next row, were merged at `(left, top)`.
pub open spec fn blitted_byte_upto(
    screen: Seq<u8>,
    left: int,
    top: int,
    width: int,
    height: int,
    pixels: Seq<u8>,
    rows: int,
    columns: int,
    i: int,
) -> u8 {
    let x = pixel_x(i) - left;
    let y = pixel_y(i) - top;
    if in_rectangle(pixel_x(i), pixel_y(i), left, top, width, height) && (y < rows || (y == rows
        && x < columns)) {
        merged_byte(
            screen[i],
            pixels,
            BYTES_PER_PIXEL * (y * width + x),
            i % BYTES_PER_PIXEL as int,
        )
    } else {
        screen[i]
    }
}

/// Byte `i` of `screen` once a sprite of `width` by `height` pixels was
/// merged at `(left, top)`.
pub open spec fn blitted_byte(
    screen: Seq<u8>,
    left: int,
    top: int,
    width: int,
    height: int,
    pixels: Seq<u8>,
    i: int,
) -> u8 {
    blitted_byte_upto(screen, left, top, width, height, pixels, height, 0, i)
}

/// `screen` once a sprite of `width` by `height` pixels was merged at
/// `(left, top)`.
pub open spec fn blitted(
    screen: Seq<u8>,
    left: int,
    top: int,
    width: int,
    height: int,
    pixels: Seq<u8>,
) -> Seq<u8> {
    Seq::new(screen.len(), |i: int| blitted_byte(screen, left, top, width, height, pixels, i))
}

/// The bytes of the pixel at `(x, y)` are the four that start at
/// `pixel_start(x, y)`, one for each channel, and no others.
pub proof fn lemma_pixel_bytes(x: int, y: int, i: int)
    requires
        0 <= x < DISPLAY_LOGICAL_WIDTH,
        0 <= y,
        0 <= i,
    ensures
        (pixel_x(i) == x && pixel_y(i) == y) <==> pixel_start(x, y) <= i < pixel_start(x, y) + 4,
        pixel_start(x, y) <= i < pixel_start(x, y) + 4 ==> i % 4 == i - pixel_start(x, y),
{
}

/// Merges `sprite` into `screen` with its top-left corner at `dest`:
/// (x, y). A pixel of the sprite whose alpha is 0 leaves the pixel under
/// it as it was; any other replaces all four bytes of the pixel under it.
/// Pixels outside the rectangle of the sprite stay as they were.
pub fn blit<S: Drawable>(screen: &mut [u8], dest: &(usize, usize), sprite: &S)
    requires
        old(screen)@.len() == FRAME_BYTES,
        dest.0 + sprite.spec_width() <= DISPLAY_LOGICAL_WIDTH,
        dest.1 + sprite.spec_height() <= DISPLAY_LOGICAL_HEIGHT,
    ensures
        final(screen)@ == blitted(
            old(screen)@,
            dest.0 as int,
            dest.1 as int,
            sprite.spec_width() as int,
            sprite.spec_height() as int,
            sprite.spec_pixels(),
        ),
{
    let (dest_x, dest_y) = *dest;
    let width = sprite.width();
    let height = sprite.height();
    let pixels = sprite.pixels();
    let ghost before = screen@;

    let mut s: usize = 0;
    let mut y: usize = 0;
    while y < height
        invariant
            y <= height,
            width == sprite.spec_width(),
            height == sprite.spec_height(),
            pixels@ == sprite.spec_pixels(),
            pixels@.len() == BYTES_PER_PIXEL * (width * height),
            dest_x + width <= DISPLAY_LOGICAL_WIDTH,
            dest_y + height <= DISPLAY_LOGICAL_HEIGHT,
            before.len() == FRAME_BYTES,
            screen@.len() == FRAME_BYTES,
            s == BYTES_PER_PIXEL * (y * width),
            forall|i: int|
                0 <= i < FRAME_BYTES ==> screen@[i] == #[trigger] blitted_byte_upto(
                    before,
                    dest_x as int,
                    dest_y as int,
                    width as int,
                    height as int,
                    pixels@,
                    y as int,
                    0,
                    i,
                ),
        decreases height - y,
    {
        let mut x: usize = 0;
        while x < width
            invariant
                y < height,
                x <= width,
                width == sprite.spec_width(),
                height == sprite.spec_height(),
                pixels@ == sprite.spec_pixels(),
                pixels@.len() == BYTES_PER_PIXEL * (width * height),
                dest_x + width <= DISPLAY_LOGICAL_WIDTH,
                dest_y + height <= DISPLAY_LOGICAL_HEIGHT,
                before.len() == FRAME_BYTES,
                screen@.len() == FRAME_BYTES,
                s == BYTES_PER_PIXEL * (y * width + x),
                forall|i: int|
                    0 <= i < FRAME_BYTES ==> screen@[i] == #[trigger] blitted_byte_upto(
                        before,
                        dest_x as int,
                        dest_y as int,
                        width as int,
                        height as int,
                        pixels@,
                        y as int,
                        x as int,
                        i,
                    ),
            decreases width - x,
        {
            proof {
                lemma_pixel_index(width as int, height as int, x as int, y as int);
                assert(pixels.len() == BYTES_PER_PIXEL * (width * height));
            }
            let d: usize = BYTES_PER_PIXEL * ((dest_y + y) * DISPLAY_LOGICAL_WIDTH + dest_x + x);
            let ghost earlier = screen@;
            if pixels[s + 3] != 0 {
                screen[d] = pixels[s];
                screen[d + 1] = pixels[s + 1];
                screen[d + 2] = pixels[s + 2];
                screen[d + 3] = pixels[s + 3];
            }
            proof {
                assert forall|i: int| 0 <= i < FRAME_BYTES implies screen@[i]
                    == #[trigger] blitted_byte_upto(
                    before,
                    dest_x as int,
                    dest_y as int,
                    width as int,
                    height as int,
                    pixels@,
                    y as int,
                    x + 1,
                    i,
                ) by {
                    lemma_pixel_bytes(dest_x + x, dest_y + y, i);
                    assert(earlier[i] == blitted_byte_upto(
                        before,
                        dest_x as int,
                        dest_y as int,
                        width as int,
                        height as int,
                        pixels@,
                        y as int,
                        x as int,
                        i,
                    ));
                }
            }
            s += BYTES_PER_PIXEL;
            x += 1;
        }
        proof {
            assert(BYTES_PER_PIXEL * (y * width + width) == BYTES_PER_PIXEL * ((y + 1) * width))
                by (nonlinear_arith);
            assert forall|i: int| 0 <= i < FRAME_BYTES implies screen@[i]
                == #[trigger] blitted_byte_upto(
                before,
                dest_x as int,
                dest_y as int,
                width as int,
                height as int,
                pixels@,
                y + 1,
                0,
                i,
            ) by {
                assert(screen@[i] == blitted_byte_upto(
                    before,
                    dest_x as int,
                    dest_y as int,
                    width as int,
                    height as int,
                    pixels@,
                    y as int,
                    x as int,
                    i,
                ));
            }
        }
        y += 1;
    }
    assert(screen@ =~= blitted(
        before,
        dest_x as int,
        dest_y as int,
        width as int,
        height as int,
        pixels@,
    ));
}

/// Whether the pixel at `(x, y)` belongs to a cell of the grid.
pub open spec fn in_grid(x: int, y: int) -> bool {
    in_rectangle(
        x,
        y,
        COLUMN_OFFSET as int,
        ROW_OFFSET as int,
        DISPLAY_COLUMNS * CELL_WIDTH,
        DISPLAY_LINES * CELL_HEIGHT,
    )
}

/// Column of the cell that holds the pixels at horizontal position `x`.
pub open spec fn column_at(x: int) -> int {
    (x - COLUMN_OFFSET) / CELL_WIDTH as int
}

/// Row of the cell that holds the pixels at vertical position `y`.
pub open spec fn row_at(y: int) -> int {
    (y - ROW_OFFSET) / CELL_HEIGHT as int
}

/// Byte `i` of `frame` once the first `count` cells of `cells`, row after
/// row, were drawn into it, each with the block that `blocks` holds for
/// its value. A byte of a pixel outside these cells is as it was; a byte
/// of a pixel inside one is the block's byte merged onto it.
pub open spec fn rendered_byte(
    cells: Seq<VideoCell>,
    blocks: Map<VideoCell, Seq<u8>>,
    frame: Seq<u8>,
    count: int,
    i: int,
) -> u8 {
    let x = pixel_x(i);
    let y = pixel_y(i);
    let column = column_at(x);
    let row = row_at(y);
    if in_grid(x, y) && cell_index(column, row) < count {
        merged_byte(
            frame[i],
            blocks[cells[cell_index(column, row)]],
            BYTES_PER_PIXEL * ((y - cell_top(row)) * CELL_WIDTH + (x - cell_left(column))),
            i % BYTES_PER_PIXEL as int,
        )
    } else {
        frame[i]
    }
}

/// `frame` once the first `count` cells of `cells` were drawn into it.
pub open spec fn rendered(
    cells: Seq<VideoCell>,
    blocks: Map<VideoCell, Seq<u8>>,
    frame: Seq<u8>,
    count: int,
) -> Seq<u8> {
    Seq::new(frame.len(), |i: int| rendered_byte(cells, blocks, frame, count, i))
}

/// How a cache may change while the first `count` cells of `cells` are
/// drawn: what it held stays as it was, and each new entry belongs to one
/// of these cells and is the block drawn from a glyph that the rasterizer
/// gave for the character of that cell.
pub open spec fn cache_grown<E, F: Fn(char) -> Result<Glyph, E>>(
    before: Map<VideoCell, Seq<u8>>,
    after: Map<VideoCell, Seq<u8>>,
    cells: Seq<VideoCell>,
    count: int,
    rasterizer: F,
) -> bool {
    &&& forall|cell: VideoCell| #[trigger]
        before.contains_key(cell) ==> after.contains_key(cell) && after[cell] == before[cell]
    &&& forall|cell: VideoCell| #[trigger]
        after.contains_key(cell) && !before.contains_key(cell) ==> {
            &&& exists|j: int| 0 <= j < count && #[trigger] cells[j] == cell
            &&& exists|glyph: Glyph|
                {
                    &&& #[trigger] call_ensures(
                        rasterizer,
                        (cell.content,),
                        Ok::<Glyph, E>(glyph),
                    )
                    &&& after[cell] == composed(cell, glyph@)
                }
        }
}

/// What holds once the first `count` cells of `cells` were drawn: the
/// cache has grown as `cache_grown` says and holds the block of each of
/// these cells, and the frame shows them.
pub open spec fn drawn<E, F: Fn(char) -> Result<Glyph, E>>(
    cells: Seq<VideoCell>,
    cache_before: Map<VideoCell, Seq<u8>>,
    cache_after: Map<VideoCell, Seq<u8>>,
    rasterizer: F,
    frame_before: Seq<u8>,
    frame_after: Seq<u8>,
    count: int,
) -> bool {
    &&& cache_grown(cache_before, cache_after, cells, count, rasterizer)
    &&& forall|j: int| 0 <= j < count ==> cache_after.contains_key(#[trigger] cells[j])
    &&& frame_after == rendered(cells, cache_after, frame_before, count)
}

/// Drawing the cell at `(column, row)` onto a frame that shows the cells
/// before it gives the frame that shows the cells up to and with it.
pub proof fn lemma_draw_next_cell(
    cells: Seq<VideoCell>,
    blocks: Map<VideoCell, Seq<u8>>,
    frame: Seq<u8>,
    column: int,
    row: int,
)
    requires
        0 <= column < DISPLAY_COLUMNS,
        0 <= row < DISPLAY_LINES,
    ensures
        blitted(
            rendered(cells, blocks, frame, cell_index(column, row)),
            cell_left(column),
            cell_top(row),
            CELL_WIDTH as int,
            CELL_HEIGHT as int,
            blocks[cells[cell_index(column, row)]],
        ) == rendered(cells, blocks, frame, cell_index(column, row) + 1),
{
    let k = cell_index(column, row);
    let under = rendered(cells, blocks, frame, k);
    let over = blitted(
        under,
        cell_left(column),
        cell_top(row),
        CELL_WIDTH as int,
        CELL_HEIGHT as int,
        blocks[cells[k]],
    );
    let goal = rendered(cells, blocks, frame, k + 1);
    assert forall|i: int| 0 <= i < frame.len() implies over[i] == goal[i] by {
        let x = pixel_x(i);
        let y = pixel_y(i);
        if in_rectangle(
            x,
            y,
            cell_left(column),
            cell_top(row),
            CELL_WIDTH as int,
            CELL_HEIGHT as int,
        ) {
            assert(column_at(x) == column);
            assert(row_at(y) == row);
        } else if in_grid(x, y) {
            assert(column_at(x) != column || row_at(y) != row);
            assert(0 <= column_at(x) < DISPLAY_COLUMNS);
            assert(cell_index(column_at(x), row_at(y)) != k);
        }
    }
    assert(over =~= goal);
}

/// The frame that shows the first `count` cells is the same with any
/// other blocks, so long as these cells have the same blocks.
pub proof fn lemma_rendered_same_blocks(
    cells: Seq<VideoCell>,
    blocks: Map<VideoCell, Seq<u8>>,
    others: Map<VideoCell, Seq<u8>>,
    frame: Seq<u8>,
    count: int,
)
    requires
        forall|j: int| 0 <= j < count ==> others[#[trigger] cells[j]] == blocks[cells[j]],
    ensures
        rendered(cells, others, frame, count) == rendered(cells, blocks, frame, count),
{
    assert forall|i: int| 0 <= i < frame.len() implies rendered_byte(
        cells,
        others,
        frame,
        count,
        i,
    ) == rendered_byte(cells, blocks, frame, count, i) by {
        let x = pixel_x(i);
        let y = pixel_y(i);
        if in_grid(x, y) {
            assert(0 <= column_at(x) && 0 <= row_at(y));
            assert(0 <= cell_index(column_at(x), row_at(y)));
        }
    }
    assert(rendered(cells, others, frame, count) =~= rendered(cells, blocks, frame, count));
}

/// Draws every cell of the grid into `frame`, row after row, each with
/// the block that the cache holds for its value or, where it holds none,
/// with the block drawn from what the rasterizer gives for its character.
///
/// A frame of the wrong size is refused before anything is touched. When
/// the rasterizer fails on a cell, the pass ends there: the cells before
/// it stay drawn, the cell itself and those after it are not. When the
/// cache holds every cell of the grid, the rasterizer is never called and
/// the pass succeeds.
pub fn draw_display<E, F: Fn(char) -> Result<Glyph, E>>(
    display: &Display,
    frame: &mut [u8],
    cache: &mut GlyphCache,
    rasterizer: &F,
) -> (result: Result<(), RenderError<E>>)
    requires
        forall|j: int|
            0 <= j < DISPLAY_CELLS && !old(cache)@.contains_key(#[trigger] display.memory@[j])
                ==> call_requires(*rasterizer, (display.memory@[j].content,)),
    ensures
        final(frame)@.len() == old(frame)@.len(),
        old(frame)@.len() != FRAME_BYTES ==> {
            &&& result == Err::<(), RenderError<E>>(
                RenderError::FrameSize { expected: FRAME_BYTES, actual: old(frame).len() },
            )
            &&& final(frame)@ == old(frame)@
            &&& final(cache)@ == old(cache)@
        },
        old(frame)@.len() == FRAME_BYTES ==> match result {
            Ok(()) => drawn(
                display.memory@,
                old(cache)@,
                final(cache)@,
                *rasterizer,
                old(frame)@,
                final(frame)@,
                DISPLAY_CELLS as int,
            ),
            Err(RenderError::Rasterizer { column, row, source }) => {
                &&& column < DISPLAY_COLUMNS
                &&& row < DISPLAY_LINES
                &&& drawn(
                    display.memory@,
                    old(cache)@,
                    final(cache)@,
                    *rasterizer,
                    old(frame)@,
                    final(frame)@,
                    cell_index(column as int, row as int),
                )
                &&& !final(cache)@.contains_key(display.memory.cell(column as int, row as int))
                &&& call_ensures(
                    *rasterizer,
                    (display.memory.cell(column as int, row as int).content,),
                    Err::<Glyph, E>(source),
                )
            },
            Err(_) => false,
        },
        (forall|j: int|
            0 <= j < DISPLAY_CELLS ==> old(cache)@.contains_key(#[trigger] display.memory@[j]))
            && old(frame)@.len() == FRAME_BYTES ==> result is Ok && final(cache)@ == old(cache)@,
{
    if frame.len() != FRAME_BYTES {
        return Err(RenderError::FrameSize { expected: FRAME_BYTES, actual: frame.len() });
    }
    let ghost cells = display.memory@;
    let ghost frame_before = frame@;
    let ghost cache_before = cache@;
    proof {
        assert(rendered(cells, cache@, frame_before, 0) =~= frame_before);
    }
    let mut row: usize = 0;
    while row < DISPLAY_LINES
        invariant
            row <= DISPLAY_LINES,
            cells == display.memory@,
            cells.len() == DISPLAY_CELLS,
            frame_before == old(frame)@,
            cache_before == old(cache)@,
            frame_before.len() == FRAME_BYTES,
            frame@.len() == FRAME_BYTES,
            forall|j: int|
                0 <= j < DISPLAY_CELLS && !cache_before.contains_key(#[trigger] cells[j])
                    ==> call_requires(*rasterizer, (cells[j].content,)),
            drawn(
                cells,
                cache_before,
                cache@,
                *rasterizer,
                frame_before,
                frame@,
                cell_index(0, row as int),
            ),
        decreases DISPLAY_LINES - row,
    {
        let mut column: usize = 0;
        while column < DISPLAY_COLUMNS
            invariant
                row < DISPLAY_LINES,
                column <= DISPLAY_COLUMNS,
                cells == display.memory@,
                cells.len() == DISPLAY_CELLS,
                frame_before == old(frame)@,
                cache_before == old(cache)@,
                frame_before.len() == FRAME_BYTES,
                frame@.len() == FRAME_BYTES,
                forall|j: int|
                    0 <= j < DISPLAY_CELLS && !cache_before.contains_key(#[trigger] cells[j])
                        ==> call_requires(*rasterizer, (cells[j].content,)),
                drawn(
                    cells,
                    cache_before,
                    cache@,
                    *rasterizer,
                    frame_before,
                    frame@,
                    cell_index(column as int, row as int),
                ),
            decreases DISPLAY_COLUMNS - column,
        {
            let ghost k = cell_index(column as int, row as int);
            let ghost cache_here = cache@;
            let cell = match display.memory.get(column, row) {
                Ok(cell) => cell,
                Err(error) => {
                    return Err(RenderError::Bounds(error));
                },
            };
            assert(cell == cells[k]);
            let image = match cache.fetch_or_rasterize(cell, rasterizer) {
                Ok(image) => image,
                Err(source) => {
                    return Err(RenderError::Rasterizer { column, row, source });
                },
            };
            let dest = match cell_origin(column, row) {
                Ok(dest) => dest,
                Err(error) => {
                    return Err(RenderError::Bounds(error));
                },
            };
            proof {
                lemma_rendered_same_blocks(cells, cache_here, cache@, frame_before, k);
            }
            blit(frame, &dest, &image);
            proof {
                lemma_draw_next_cell(cells, cache@, frame_before, column as int, row as int);
            }
            column += 1;
        }
        row += 1;
    }
    Ok(())
}

/// What `blit` does to one byte of the pixel at `(x, y)`: outside the
/// rectangle of the sprite the byte stays; inside it the byte stays where
/// the alpha of the sprite's pixel is 0, and else becomes the byte of the
/// same channel of the sprite's pixel, whatever was there.
pub proof fn lemma_blit_merges(
    screen: Seq<u8>,
    left: int,
    top: int,
    width: int,
    height: int,
    pixels: Seq<u8>,
    x: int,
    y: int,
    channel: int,
)
    requires
        screen.len() == FRAME_BYTES,
        0 <= x < DISPLAY_LOGICAL_WIDTH,
        0 <= y < DISPLAY_LOGICAL_HEIGHT,
        0 <= channel < BYTES_PER_PIXEL,
    ensures
        ({
            let after = blitted(screen, left, top, width, height, pixels);
            let i = pixel_start(x, y) + channel;
            let source = BYTES_PER_PIXEL * ((y - top) * width + (x - left));
            &&& !in_rectangle(x, y, left, top, width, height) ==> after[i] == screen[i]
            &&& in_rectangle(x, y, left, top, width, height) && pixels[source + 3] == 0
                ==> after[i] == screen[i]
            &&& in_rectangle(x, y, left, top, width, height) && pixels[source + 3] != 0
                ==> after[i] == pixels[source + channel]
        }),
{
    lemma_pixel_bytes(x, y, pixel_start(x, y) + channel);
}

/// Drawing the same cells once more, with the same blocks, onto a frame
/// that shows them already changes no byte of it.
pub proof fn lemma_rendered_twice(
    cells: Seq<VideoCell>,
    blocks: Map<VideoCell, Seq<u8>>,
    frame: Seq<u8>,
    count: int,
)
    ensures
        rendered(cells, blocks, rendered(cells, blocks, frame, count), count) == rendered(
            cells,
            blocks,
            frame,
            count,
        ),
{
    let once = rendered(cells, blocks, frame, count);
    assert(rendered(cells, blocks, once, count) =~= once);
}

/// Two passes of `draw_display` over one grid, the second on the cache
/// and the frame that the first has left: the second leaves both exactly
/// as it found them.
pub proof fn lemma_second_pass_changes_nothing<E, F: Fn(char) -> Result<Glyph, E>>(
    cells: Seq<VideoCell>,
    rasterizer: F,
    cache_before: Map<VideoCell, Seq<u8>>,
    cache_between: Map<VideoCell, Seq<u8>>,
    cache_after: Map<VideoCell, Seq<u8>>,
    frame_before: Seq<u8>,
    frame_between: Seq<u8>,
    frame_after: Seq<u8>,
    count: int,
)
    requires
        drawn(cells, cache_before, cache_between, rasterizer, frame_before, frame_between, count),
        drawn(cells, cache_between, cache_after, rasterizer, frame_between, frame_after, count),
    ensures
        cache_after == cache_between,
        frame_after == frame_between,
{
    assert(cache_after =~= cache_between);
    lemma_rendered_twice(cells, cache_between, frame_before, count);
}

/// Two passes of `draw_display` over one grid, the second on the cache
/// that the first has left and on a frame equal to the one the first
/// began with: both end with the same frame, byte for byte.
pub proof fn lemma_second_pass_repeats_first<E, F: Fn(char) -> Result<Glyph, E>>(
    cells: Seq<VideoCell>,
    rasterizer: F,
    cache_before: Map<VideoCell, Seq<u8>>,
    cache_between: Map<VideoCell, Seq<u8>>,
    cache_after: Map<VideoCell, Seq<u8>>,
    frame_before: Seq<u8>,
    frame_first: Seq<u8>,
    frame_second: Seq<u8>,
    count: int,
)
    requires
        drawn(cells, cache_before, cache_between, rasterizer, frame_before, frame_first, count),
        drawn(cells, cache_between, cache_after, rasterizer, frame_before, frame_second, count),
    ensures
        cache_after == cache_between,
        frame_second == frame_first,
{
    assert(cache_after =~= cache_between);
}

} // verus!
