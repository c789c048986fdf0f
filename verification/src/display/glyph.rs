//! What a rasterizer hands back for one character.

use vstd::prelude::*;

verus! {

/// The coverage bitmap of one character: `width` by `height` values, row
/// after row, each telling how much of its pixel the character covers
/// (0: nothing, 255: all of it).
#[derive(Debug)]
pub struct Glyph {
    width: usize,
    height: usize,
    coverage: Vec<u8>,
}

/// A glyph as plain values.
pub ghost struct GlyphView {
    pub width: nat,
    pub height: nat,
    pub coverage: Seq<u8>,
}

impl GlyphView {
    /// The coverage holds one value for each pixel.
    pub open spec fn wf(self) -> bool {
        self.coverage.len() == self.width * self.height
    }

    /// Coverage of the pixel at `(x, y)`; nothing outside the bitmap.
    pub open spec fn at(self, x: int, y: int) -> u8 {
        if 0 <= x < self.width && 0 <= y < self.height {
            self.coverage[y * self.width + x]
        } else {
            0
        }
    }
}

impl View for Glyph {
    type V = GlyphView;

    closed spec fn view(&self) -> GlyphView {
        GlyphView {
            width: self.width as nat,
            height: self.height as nat,
            coverage: self.coverage@,
        }
    }
}

/// In a bitmap of `width` by `height`, the pixel at `(x, y)` has a place
/// of its own below `width * height`.
pub proof fn lemma_pixel_index(width: int, height: int, x: int, y: int)
    requires
        0 <= x < width,
        0 <= y < height,
    ensures
        0 <= y * width <= y * width + x < width * height,
{
    assert(0 <= y * width && (y + 1) * width <= height * width) by (nonlinear_arith)
        requires
            0 <= width,
            0 <= y < height,
    ;
    assert((y + 1) * width == y * width + width) by (nonlinear_arith);
    assert(height * width == width * height) by (nonlinear_arith);
}

impl Glyph {
    #[verifier::type_invariant]
    spec fn inv(self) -> bool {
        self.coverage@.len() == self.width * self.height
    }

    /// A glyph of `width` by `height` pixels, if `coverage` holds exactly
    /// one value for each of them.
    pub fn new(width: usize, height: usize, coverage: Vec<u8>) -> (glyph: Option<Glyph>)
        ensures
            coverage@.len() == width * height ==> glyph is Some,
            glyph matches Some(g) ==> g@ == (GlyphView {
                width: width as nat,
                height: height as nat,
                coverage: coverage@,
            }) && g@.wf(),
    {
        let given = coverage.len();
        match width.checked_mul(height) {
            Some(area) => {
                if given == area {
                    Some(Glyph { width, height, coverage })
                } else {
                    None
                }
            },
            None => None,
        }
    }

    /// Width of the bitmap, in pixels.
    pub fn width(&self) -> (width: usize)
        ensures
            width == self@.width,
    {
        self.width
    }

    /// Height of the bitmap, in pixels.
    pub fn height(&self) -> (height: usize)
        ensures
            height == self@.height,
    {
        self.height
    }

    /// The coverage values, row after row.
    pub fn coverage(&self) -> (coverage: &Vec<u8>)
        ensures
            coverage@ == self@.coverage,
            self@.wf(),
    {
        proof {
            use_type_invariant(self);
        }
        &self.coverage
    }

    /// Coverage of the pixel at `(x, y)`; nothing outside the bitmap.
    pub fn coverage_at(&self, x: usize, y: usize) -> (value: u8)
        ensures
            value == self@.at(x as int, y as int),
    {
        proof {
            use_type_invariant(self);
        }
        if x < self.width && y < self.height {
            proof {
                lemma_pixel_index(self.width as int, self.height as int, x as int, y as int);
                assert(self.coverage.len() == self.width * self.height);
            }
            self.coverage[y * self.width + x]
        } else {
            0
        }
    }
}

} // verus!
