//! The glyph cache: the pixel block of every cell value drawn so far.

use super::glyph::Glyph;
use super::image::{composed, Drawable, Image};
use super::video_memory::{Colour, VideoCell};
use std::collections::HashMap;
use vstd::prelude::*;

verus! {

broadcast use vstd::std_specs::hash::group_hash_axioms;

/// Place of a colour among the sixteen.
spec fn colour_code(colour: Colour) -> int {
    match colour {
        Colour::Black => 0,
        Colour::White => 1,
        Colour::Red => 2,
        Colour::Cyan => 3,
        Colour::Violet => 4,
        Colour::Green => 5,
        Colour::Blue => 6,
        Colour::Yellow => 7,
        Colour::Orange => 8,
        Colour::Brown => 9,
        Colour::LightRed => 10,
        Colour::DarkGrey => 11,
        Colour::Grey => 12,
        Colour::LightGreen => 13,
        Colour::LightBlue => 14,
        Colour::LightGrey => 15,
    }
}

/// The number a cell value is stored under: its character, then its
/// background, then its foreground. Two cells share it only if they are
/// equal in all three.
spec fn cell_key(cell: VideoCell) -> int {
    (cell.content as int) * 256 + colour_code(cell.background) * 16 + colour_code(cell.foreground)
}

/// Cells that differ are stored under different numbers.
proof fn lemma_cell_key_injective(a: VideoCell, b: VideoCell)
    requires
        cell_key(a) == cell_key(b),
    ensures
        a == b,
{
    let ra = colour_code(a.background) * 16 + colour_code(a.foreground);
    let rb = colour_code(b.background) * 16 + colour_code(b.foreground);
    assert(0 <= ra < 256 && 0 <= rb < 256);
    assert(a.content as int == b.content as int);
    assert(colour_code(a.background) == colour_code(b.background));
    assert(colour_code(a.foreground) == colour_code(b.foreground));
}

fn code_of(colour: Colour) -> (code: u64)
    ensures
        code == colour_code(colour),
{
    match colour {
        Colour::Black => 0,
        Colour::White => 1,
        Colour::Red => 2,
        Colour::Cyan => 3,
        Colour::Violet => 4,
        Colour::Green => 5,
        Colour::Blue => 6,
        Colour::Yellow => 7,
        Colour::Orange => 8,
        Colour::Brown => 9,
        Colour::LightRed => 10,
        Colour::DarkGrey => 11,
        Colour::Grey => 12,
        Colour::LightGreen => 13,
        Colour::LightBlue => 14,
        Colour::LightGrey => 15,
    }
}

fn key_of(cell: VideoCell) -> (key: u64)
    ensures
        key == cell_key(cell),
{
    let content: u32 = cell.content as u32;
    (content as u64) * 256 + code_of(cell.background) * 16 + code_of(cell.foreground)
}

/// Maps each cell value seen so far to its pixel block. Entries are never
/// replaced nor removed.
pub struct GlyphCache {
    entries: HashMap<u64, Image>,
}

impl View for GlyphCache {
    type V = Map<VideoCell, Seq<u8>>;

    closed spec fn view(&self) -> Map<VideoCell, Seq<u8>> {
        Map::new(
            |cell: VideoCell| self.entries@.contains_key(cell_key(cell) as u64),
            |cell: VideoCell| self.entries@[cell_key(cell) as u64].spec_pixels(),
        )
    }
}

impl GlyphCache {
    #[verifier::type_invariant]
    spec fn inv(self) -> bool {
        forall|key: u64| #[trigger]
            self.entries@.contains_key(key) ==> self.entries@[key].is_cell_block()
    }

    /// A cache without entries.
    pub fn new() -> (cache: Self)
        ensures
            cache@ == Map::<VideoCell, Seq<u8>>::empty(),
    {
        let cache = GlyphCache { entries: HashMap::new() };
        assert(cache@ =~= Map::<VideoCell, Seq<u8>>::empty());
        cache
    }

    /// Whether the block of `cell` is stored.
    pub fn contains(&self, cell: VideoCell) -> (stored: bool)
        ensures
            stored == self@.contains_key(cell),
    {
        let key = key_of(cell);
        self.entries.contains_key(&key)
    }

    /// The pixel block of `cell`.
    ///
    /// Where the block is stored, it is handed out and the rasterizer is
    /// not called: it need not even accept the character. Where it is not,
    /// the rasterizer is called once with the character of the cell; the
    /// block drawn from its glyph is stored and handed out. A failure of
    /// the rasterizer is handed on and nothing is stored.
    pub fn fetch_or_rasterize<E, F: Fn(char) -> Result<Glyph, E>>(
        &mut self,
        cell: VideoCell,
        rasterizer: &F,
    ) -> (result: Result<Image, E>)
        requires
            !old(self)@.contains_key(cell) ==> call_requires(*rasterizer, (cell.content,)),
        ensures
            result matches Ok(image) ==> image.is_cell_block() && final(self)@.contains_key(cell)
                && image.spec_pixels() == final(self)@[cell],
            old(self)@.contains_key(cell) ==> result is Ok && final(self)@ == old(self)@,
            !old(self)@.contains_key(cell) ==> match result {
                Ok(image) => exists|glyph: Glyph|
                    {
                        &&& #[trigger] call_ensures(
                            *rasterizer,
                            (cell.content,),
                            Ok::<Glyph, E>(glyph),
                        )
                        &&& final(self)@ == old(self)@.insert(cell, composed(cell, glyph@))
                    },
                Err(error) => call_ensures(*rasterizer, (cell.content,), Err::<Glyph, E>(error))
                    && final(self)@ == old(self)@,
            },
    {
        proof {
            use_type_invariant(&*self);
        }
        let key = key_of(cell);
        match self.entries.get(&key) {
            Some(image) => {
                return Ok(image.clone());
            },
            None => {},
        }
        match rasterizer(cell.content) {
            Ok(glyph) => {
                let image = Image::from_glyph(cell, &glyph);
                let copy = image.clone();
                let ghost before = self@;
                let mut taken = GlyphCache { entries: HashMap::new() };
                std::mem::swap(self, &mut taken);
                let mut entries = taken.entries;
                entries.insert(key, image);
                *self = GlyphCache { entries };
                proof {
                    assert forall|other: VideoCell|
                        cell_key(other) == cell_key(cell) implies other == cell by {
                        lemma_cell_key_injective(other, cell);
                    }
                    assert(self@ =~= before.insert(cell, composed(cell, glyph@)));
                }
                Ok(copy)
            },
            Err(error) => Err(error),
        }
    }
}

} // verus!
