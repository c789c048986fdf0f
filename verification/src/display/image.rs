//! Pixel blocks: what can be drawn, and the block of a cell.

use super::geometry::{BYTES_PER_PIXEL, CELL_BYTES, CELL_HEIGHT, CELL_WIDTH};
use super::glyph::{lemma_pixel_index, Glyph, GlyphView};
use super::video_memory::VideoCell;
use vstd::prelude::*;

verus! {

/// Something with a width, a height and that many RGBA8 pixels, row
/// after row, four bytes each.
pub trait Drawable {
    /// Width in pixels.
    spec fn spec_width(&self) -> nat;

    /// Height in pixels.
    spec fn spec_height(&self) -> nat;

    /// The bytes of the pixels.
    spec fn spec_pixels(&self) -> Seq<u8>;

    /// Width in pixels.
    fn width(&self) -> (width: usize)
        ensures
            width == self.spec_width(),
    ;

    /// Height in pixels.
    fn height(&self) -> (height: usize)
        ensures
            height == self.spec_height(),
    ;

    /// The bytes of the pixels: four for each pixel, no more and no less.
    fn pixels(&self) -> (pixels: Vec<u8>)
        ensures
            pixels@ == self.spec_pixels(),
            pixels@.len() == BYTES_PER_PIXEL * (self.spec_width() * self.spec_height()),
    ;
}

/// The four bytes of the pixel at `(x, y)` of the block of `cell`, given
/// the glyph of its character: the background at full opacity where the
/// glyph covers nothing, else the foreground with the coverage as alpha.
pub open spec fn composed_pixel(cell: VideoCell, glyph: GlyphView, x: int, y: int) -> Seq<u8> {
    let coverage = glyph.at(x, y);
    if coverage == 0 {
        cell.background.rgba()
    } else {
        cell.foreground.rgba().update(3, coverage)
    }
}

/// The pixel block of `cell`, given the glyph of its character:
/// `CELL_WIDTH` by `CELL_HEIGHT` pixels with the glyph at the top-left
/// corner, cut off at the right and bottom edges of the cell.
pub open spec fn composed(cell: VideoCell, glyph: GlyphView) -> Seq<u8> {
    Seq::new(
        CELL_BYTES as nat,
        |i: int|
            composed_pixel(
                cell,
                glyph,
                (i / BYTES_PER_PIXEL as int) % CELL_WIDTH as int,
                (i / BYTES_PER_PIXEL as int) / CELL_WIDTH as int,
            )[i % BYTES_PER_PIXEL as int],
    )
}

/// The pixel block of a cell without a glyph: its background everywhere.
pub open spec fn plain(cell: VideoCell) -> Seq<u8> {
    Seq::new(CELL_BYTES as nat, |i: int| cell.background.rgba()[i % BYTES_PER_PIXEL as int])
}

impl Drawable for VideoCell {
    open spec fn spec_width(&self) -> nat {
        CELL_WIDTH as nat
    }

    open spec fn spec_height(&self) -> nat {
        CELL_HEIGHT as nat
    }

    open spec fn spec_pixels(&self) -> Seq<u8> {
        plain(*self)
    }

    fn width(&self) -> (width: usize) {
        CELL_WIDTH
    }

    fn height(&self) -> (height: usize) {
        CELL_HEIGHT
    }

    fn pixels(&self) -> (pixels: Vec<u8>) {
        let quad = self.background.to_rgba();
        let mut pixels: Vec<u8> = Vec::with_capacity(CELL_BYTES);
        let mut n: usize = 0;
        while n < CELL_WIDTH * CELL_HEIGHT
            invariant
                n <= CELL_WIDTH * CELL_HEIGHT,
                quad@ == self.background.rgba(),
                pixels@.len() == BYTES_PER_PIXEL * n,
                forall|i: int|
                    0 <= i < pixels@.len() ==> pixels@[i] == #[trigger] plain(*self)[i],
            decreases CELL_WIDTH * CELL_HEIGHT - n,
        {
            pixels.push(quad[0]);
            pixels.push(quad[1]);
            pixels.push(quad[2]);
            pixels.push(quad[3]);
            n += 1;
        }
        assert(pixels@ =~= plain(*self));
        pixels
    }
}

/// A block of pixels of any size.
#[derive(Debug)]
pub struct Image {
    dimensions: (usize, usize),
    data: Vec<u8>,
}

impl Image {
    #[verifier::type_invariant]
    spec fn inv(self) -> bool {
        self.data@.len() == BYTES_PER_PIXEL * (self.dimensions.0 * self.dimensions.1)
    }

    /// The image is the pixel block of a cell.
    pub open spec fn is_cell_block(&self) -> bool {
        &&& self.spec_width() == CELL_WIDTH
        &&& self.spec_height() == CELL_HEIGHT
        &&& self.spec_pixels().len() == CELL_BYTES
    }

    /// An image of `width` by `height` pixels, if `data` holds exactly four
    /// bytes for each of them.
    pub fn new(width: usize, height: usize, data: Vec<u8>) -> (image: Option<Self>)
        ensures
            data@.len() == BYTES_PER_PIXEL * (width * height) ==> image is Some,
            image matches Some(made) ==> {
                &&& data@.len() == BYTES_PER_PIXEL * (width * height)
                &&& made.spec_width() == width
                &&& made.spec_height() == height
                &&& made.spec_pixels() == data@
            },
    {
        let given = data.len();
        let bytes = match width.checked_mul(height) {
            Some(area) => area.checked_mul(BYTES_PER_PIXEL),
            None => None,
        };
        match bytes {
            Some(bytes) => {
                if given == bytes {
                    Some(Self { dimensions: (width, height), data })
                } else {
                    None
                }
            },
            None => None,
        }
    }

    /// Copies what `s` draws.
    pub fn from_drawable<T: Drawable>(s: T) -> (image: Self)
        ensures
            image.spec_width() == s.spec_width(),
            image.spec_height() == s.spec_height(),
            image.spec_pixels() == s.spec_pixels(),
    {
        Self { dimensions: (s.width(), s.height()), data: s.pixels() }
    }

    /// Draws the block of `cell` from the glyph of its character.
    pub fn from_glyph(cell: VideoCell, glyph: &Glyph) -> (image: Self)
        ensures
            image.is_cell_block(),
            image.spec_pixels() == composed(cell, glyph@),
    {
        let background = cell.background.to_rgba();
        let foreground = cell.foreground.to_rgba();
        let mut data: Vec<u8> = Vec::with_capacity(CELL_BYTES);
        let mut y: usize = 0;
        while y < CELL_HEIGHT
            invariant
                y <= CELL_HEIGHT,
                background@ == cell.background.rgba(),
                foreground@ == cell.foreground.rgba(),
                data@.len() == BYTES_PER_PIXEL * (y * CELL_WIDTH),
                forall|i: int|
                    0 <= i < data@.len() ==> data@[i] == #[trigger] composed(cell, glyph@)[i],
            decreases CELL_HEIGHT - y,
        {
            let mut x: usize = 0;
            while x < CELL_WIDTH
                invariant
                    y < CELL_HEIGHT,
                    x <= CELL_WIDTH,
                    background@ == cell.background.rgba(),
                    foreground@ == cell.foreground.rgba(),
                    data@.len() == BYTES_PER_PIXEL * (y * CELL_WIDTH + x),
                    forall|i: int|
                        0 <= i < data@.len() ==> data@[i] == #[trigger] composed(cell, glyph@)[i],
                decreases CELL_WIDTH - x,
            {
                let coverage = glyph.coverage_at(x, y);
                if coverage == 0 {
                    data.push(background[0]);
                    data.push(background[1]);
                    data.push(background[2]);
                    data.push(background[3]);
                } else {
                    data.push(foreground[0]);
                    data.push(foreground[1]);
                    data.push(foreground[2]);
                    data.push(coverage);
                }
                x += 1;
            }
            y += 1;
        }
        assert(data@ =~= composed(cell, glyph@));
        Self { dimensions: (CELL_WIDTH, CELL_HEIGHT), data }
    }
}

impl Clone for Image {
    fn clone(&self) -> (image: Self)
        ensures
            image.spec_width() == self.spec_width(),
            image.spec_height() == self.spec_height(),
            image.spec_pixels() == self.spec_pixels(),
    {
        proof {
            use_type_invariant(self);
        }
        let data = self.data.clone();
        assert(data@ =~= self.data@);
        Self { dimensions: self.dimensions, data }
    }
}

impl Drawable for Image {
    closed spec fn spec_width(&self) -> nat {
        self.dimensions.0 as nat
    }

    closed spec fn spec_height(&self) -> nat {
        self.dimensions.1 as nat
    }

    closed spec fn spec_pixels(&self) -> Seq<u8> {
        self.data@
    }

    fn width(&self) -> (width: usize) {
        self.dimensions.0
    }

    fn height(&self) -> (height: usize) {
        self.dimensions.1
    }

    fn pixels(&self) -> (pixels: Vec<u8>) {
        proof {
            use_type_invariant(self);
        }
        let pixels = self.data.clone();
        assert(pixels@ =~= self.data@);
        pixels
    }
}

} // verus!
