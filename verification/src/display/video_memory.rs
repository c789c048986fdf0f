//! Colours, cells and the grid that holds them.

use super::error::BoundsError;
use super::{DISPLAY_CELLS, DISPLAY_COLUMNS, DISPLAY_LINES};
use rand::rngs::ThreadRng;
use rand::Rng;
use vstd::prelude::*;

verus! {

/// The sixteen colours a cell can take.
#[derive(Debug, Clone, Copy, PartialEq, Eq, Hash, Structural)]
pub enum Colour {
    Black,
    White,
    Red,
    Cyan,
    Violet,
    Green,
    Blue,
    Yellow,
    Orange,
    Brown,
    LightRed,
    DarkGrey,
    Grey,
    LightGreen,
    LightBlue,
    LightGrey,
}

impl Colour {
    /// Red, green and blue of the colour, each in `0..=255`.
    pub open spec fn rgb(self) -> (int, int, int) {
        match self {
            Colour::Black => (0x00, 0x00, 0x00),
            Colour::White => (0xff, 0xff, 0xff),
            Colour::Red => (0x88, 0x00, 0x00),
            Colour::Cyan => (0xaa, 0xff, 0xee),
            Colour::Violet => (0xcc, 0x44, 0xcc),
            Colour::Green => (0x00, 0xcc, 0x55),
            Colour::Blue => (0x00, 0x00, 0xaa),
            Colour::Yellow => (0xee, 0xee, 0x77),
            Colour::Orange => (0xdd, 0x88, 0x55),
            Colour::Brown => (0x66, 0x44, 0x00),
            Colour::LightRed => (0xff, 0x77, 0x77),
            Colour::DarkGrey => (0x33, 0x33, 0x33),
            Colour::Grey => (0x77, 0x77, 0x77),
            Colour::LightGreen => (0xaa, 0xff, 0x66),
            Colour::LightBlue => (0x00, 0x88, 0xff),
            Colour::LightGrey => (0xbb, 0xbb, 0xbb),
        }
    }

    /// The colour as four bytes: red, green, blue, and an alpha of `0xff`.
    pub open spec fn rgba(self) -> Seq<u8> {
        seq![self.rgb().0 as u8, self.rgb().1 as u8, self.rgb().2 as u8, 0xffu8]
    }

    /// The colour as one number, `0xAARRGGBB`, with an alpha of `0xff`.
    pub open spec fn packed(self) -> u32 {
        (0xff00_0000 + self.rgb().0 * 0x1_0000 + self.rgb().1 * 0x100 + self.rgb().2) as u32
    }

    /// The colour as four bytes in the order red, green, blue, alpha.
    pub fn to_rgba(self) -> (quad: [u8; 4])
        ensures
            quad@ == self.rgba(),
    {
        let quad: [u8; 4] = match self {
            Colour::Black => [0x00, 0x00, 0x00, 0xff],
            Colour::White => [0xff, 0xff, 0xff, 0xff],
            Colour::Red => [0x88, 0x00, 0x00, 0xff],
            Colour::Cyan => [0xaa, 0xff, 0xee, 0xff],
            Colour::Violet => [0xcc, 0x44, 0xcc, 0xff],
            Colour::Green => [0x00, 0xcc, 0x55, 0xff],
            Colour::Blue => [0x00, 0x00, 0xaa, 0xff],
            Colour::Yellow => [0xee, 0xee, 0x77, 0xff],
            Colour::Orange => [0xdd, 0x88, 0x55, 0xff],
            Colour::Brown => [0x66, 0x44, 0x00, 0xff],
            Colour::LightRed => [0xff, 0x77, 0x77, 0xff],
            Colour::DarkGrey => [0x33, 0x33, 0x33, 0xff],
            Colour::Grey => [0x77, 0x77, 0x77, 0xff],
            Colour::LightGreen => [0xaa, 0xff, 0x66, 0xff],
            Colour::LightBlue => [0x00, 0x88, 0xff, 0xff],
            Colour::LightGrey => [0xbb, 0xbb, 0xbb, 0xff],
        };
        assert(quad@ =~= self.rgba());
        quad
    }
}

impl From<Colour> for [u8; 4] {
    fn from(c: Colour) -> (quad: Self) {
        c.to_rgba()
    }
}

impl vstd::std_specs::convert::FromSpecImpl<Colour> for [u8; 4] {
    open spec fn obeys_from_spec() -> bool {
        true
    }

    open spec fn from_spec(c: Colour) -> Self {
        [c.rgb().0 as u8, c.rgb().1 as u8, c.rgb().2 as u8, 0xffu8]
    }
}

impl<'a> From<Colour> for &'a [u8] {
    fn from(c: Colour) -> (quad: Self) {
        match c {
            Colour::Black => &[0x00, 0x00, 0x00, 0xff],
            Colour::White => &[0xff, 0xff, 0xff, 0xff],
            Colour::Red => &[0x88, 0x00, 0x00, 0xff],
            Colour::Cyan => &[0xaa, 0xff, 0xee, 0xff],
            Colour::Violet => &[0xcc, 0x44, 0xcc, 0xff],
            Colour::Green => &[0x00, 0xcc, 0x55, 0xff],
            Colour::Blue => &[0x00, 0x00, 0xaa, 0xff],
            Colour::Yellow => &[0xee, 0xee, 0x77, 0xff],
            Colour::Orange => &[0xdd, 0x88, 0x55, 0xff],
            Colour::Brown => &[0x66, 0x44, 0x00, 0xff],
            Colour::LightRed => &[0xff, 0x77, 0x77, 0xff],
            Colour::DarkGrey => &[0x33, 0x33, 0x33, 0xff],
            Colour::Grey => &[0x77, 0x77, 0x77, 0xff],
            Colour::LightGreen => &[0xaa, 0xff, 0x66, 0xff],
            Colour::LightBlue => &[0x00, 0x88, 0xff, 0xff],
            Colour::LightGrey => &[0xbb, 0xbb, 0xbb, 0xff],
        }
    }
}

impl<'a> vstd::std_specs::convert::FromSpecImpl<Colour> for &'a [u8] {
    open spec fn obeys_from_spec() -> bool {
        true
    }

    open spec fn from_spec(c: Colour) -> Self {
        vstd::array::spec_array_as_slice(&[c.rgb().0 as u8, c.rgb().1 as u8, c.rgb().2 as u8, 0xffu8])
    }
}

impl From<Colour> for u32 {
    fn from(c: Colour) -> (packed: Self) {
        match c {
            Colour::Black => 0xff000000,
            Colour::White => 0xffffffff,
            Colour::Red => 0xff880000,
            Colour::Cyan => 0xffaaffee,
            Colour::Violet => 0xffcc44cc,
            Colour::Green => 0xff00cc55,
            Colour::Blue => 0xff0000aa,
            Colour::Yellow => 0xffeeee77,
            Colour::Orange => 0xffdd8855,
            Colour::Brown => 0xff664400,
            Colour::LightRed => 0xffff7777,
            Colour::DarkGrey => 0xff333333,
            Colour::Grey => 0xff777777,
            Colour::LightGreen => 0xffaaff66,
            Colour::LightBlue => 0xff0088ff,
            Colour::LightGrey => 0xffbbbbbb,
        }
    }
}

impl vstd::std_specs::convert::FromSpecImpl<Colour> for u32 {
    open spec fn obeys_from_spec() -> bool {
        true
    }

    open spec fn from_spec(c: Colour) -> Self {
        c.packed()
    }
}

/// One position of the grid: a character and its two colours.
#[derive(Debug, Clone, Copy, PartialEq, Eq, Hash, Structural)]
pub struct VideoCell {
    pub content: char,
    pub background: Colour,
    pub foreground: Colour,
}

impl VideoCell {
    /// The cell every position holds after creation and after `clear`:
    /// a white space on blue.
    pub open spec fn blank() -> VideoCell {
        VideoCell { content: ' ', background: Colour::Blue, foreground: Colour::White }
    }
}

impl Default for VideoCell {
    fn default() -> (cell: Self)
        ensures
            cell == VideoCell::blank(),
    {
        Self { content: ' ', background: Colour::Blue, foreground: Colour::White }
    }
}

/// The generator type of `rand::thread_rng`; nothing is known of its
/// state.
#[verifier::external_type_specification]
#[verifier::external_body]
pub struct ExThreadRng(ThreadRng);

/// `rand::thread_rng`: a handle to the generator that `rand` keeps for
/// the calling thread. Nothing is claimed of it. `rand` panics here if the
/// operating system gives it no seed.
pub assume_specification[ rand::thread_rng ]() -> (rng: ThreadRng)
;

/// `Rng::gen_range` on the half-open range `low..high` of characters:
/// the character drawn is at least `low` and below `high`; which one it
/// is, is left to chance. `rand` panics on an empty range, so the range
/// must not be empty.
#[verifier::external_body]
fn random_char(rng: &mut ThreadRng, low: char, high: char) -> (drawn: char)
    requires
        low < high,
    ensures
        low <= drawn < high,
{
    rng.gen_range(low..high)
}

/// The grid in which every position holds the blank cell.
pub open spec fn blank_grid() -> Seq<VideoCell> {
    Seq::new(DISPLAY_CELLS as nat, |i: int| VideoCell::blank())
}

/// Position of `(column, row)` in the row-major sequence of cells.
pub open spec fn cell_index(column: int, row: int) -> int {
    row * DISPLAY_COLUMNS + column
}

/// The grid: `DISPLAY_COLUMNS` by `DISPLAY_LINES` cells, row after row.
#[derive(Debug, Clone, Copy)]
pub struct VideoMemory(pub [VideoCell; DISPLAY_CELLS]);

impl View for VideoMemory {
    type V = Seq<VideoCell>;

    open spec fn view(&self) -> Seq<VideoCell> {
        self.0@
    }
}

impl Default for VideoMemory {
    fn default() -> (memory: Self)
        ensures
            memory@ == blank_grid(),
    {
        VideoMemory([VideoCell::default(); DISPLAY_CELLS])
    }
}

impl VideoMemory {
    /// The cell at `(column, row)`.
    pub open spec fn cell(&self, column: int, row: int) -> VideoCell {
        self@[cell_index(column, row)]
    }

    /// Overwrites the cell at `(column, row)`.
    ///
    /// Fails, leaving the grid as it was, when the column is out of range,
    /// or else when the row is.
    pub fn set(
        &mut self,
        column: usize,
        row: usize,
        content: char,
        foreground: Colour,
        background: Colour,
    ) -> (result: Result<(), BoundsError>)
        ensures
            column >= DISPLAY_COLUMNS ==> result == Err::<(), BoundsError>(
                BoundsError::Column { column, limit: DISPLAY_COLUMNS },
            ),
            column < DISPLAY_COLUMNS && row >= DISPLAY_LINES ==> result == Err::<(), BoundsError>(
                BoundsError::Row { row, limit: DISPLAY_LINES },
            ),
            column < DISPLAY_COLUMNS && row < DISPLAY_LINES ==> result == Ok::<(), BoundsError>(()),
            result is Ok ==> final(self)@ == old(self)@.update(
                cell_index(column as int, row as int),
                VideoCell { content, background, foreground },
            ),
            result is Err ==> final(self)@ == old(self)@,
    {
        if column >= DISPLAY_COLUMNS {
            return Err(BoundsError::Column { column, limit: DISPLAY_COLUMNS });
        }
        if row >= DISPLAY_LINES {
            return Err(BoundsError::Row { row, limit: DISPLAY_LINES });
        }
        let position: usize = (row * DISPLAY_COLUMNS) + column;
        self.0[position] = VideoCell { content, foreground, background };
        Ok(())
    }

    /// A copy of the cell at `(column, row)`.
    ///
    /// Fails when the column is out of range, or else when the row is.
    pub fn get(&self, column: usize, row: usize) -> (result: Result<VideoCell, BoundsError>)
        ensures
            column >= DISPLAY_COLUMNS ==> result == Err::<VideoCell, BoundsError>(
                BoundsError::Column { column, limit: DISPLAY_COLUMNS },
            ),
            column < DISPLAY_COLUMNS && row >= DISPLAY_LINES ==> result == Err::<
                VideoCell,
                BoundsError,
            >(BoundsError::Row { row, limit: DISPLAY_LINES }),
            column < DISPLAY_COLUMNS && row < DISPLAY_LINES ==> result == Ok::<
                VideoCell,
                BoundsError,
            >(self.cell(column as int, row as int)),
    {
        if column >= DISPLAY_COLUMNS {
            return Err(BoundsError::Column { column, limit: DISPLAY_COLUMNS });
        }
        if row >= DISPLAY_LINES {
            return Err(BoundsError::Row { row, limit: DISPLAY_LINES });
        }
        let position: usize = (row * DISPLAY_COLUMNS) + column;
        Ok(self.0[position])
    }

    /// Replaces the character of every cell by one drawn at random from
    /// `'A'` up to but not including `'z'`, and keeps its colours.
    pub fn randomise(&mut self)
        ensures
            forall|i: int|
                0 <= i < DISPLAY_CELLS ==> {
                    &&& (#[trigger] final(self)@[i]).background == old(self)@[i].background
                    &&& final(self)@[i].foreground == old(self)@[i].foreground
                    &&& 'A' <= final(self)@[i].content < 'z'
                },
    {
        let mut rng = rand::thread_rng();
        let mut position: usize = 0;
        while position < DISPLAY_CELLS
            invariant
                position <= DISPLAY_CELLS,
                forall|i: int|
                    0 <= i < position ==> {
                        &&& (#[trigger] self@[i]).background == old(self)@[i].background
                        &&& self@[i].foreground == old(self)@[i].foreground
                        &&& 'A' <= self@[i].content < 'z'
                    },
                forall|i: int| position <= i < DISPLAY_CELLS ==> #[trigger] self@[i] == old(self)@[i],
            decreases DISPLAY_CELLS - position,
        {
            let ghost earlier = self@;
            let cell = self.0[position];
            let content = random_char(&mut rng, 'A', 'z');
            let changed = VideoCell {
                content,
                background: cell.background,
                foreground: cell.foreground,
            };
            self.0[position] = changed;
            assert(self@ == earlier.update(position as int, changed));
            position += 1;
        }
    }

    /// Puts the blank cell at every position.
    pub fn clear(&mut self)
        ensures
            final(self)@ == blank_grid(),
    {
        self.0 = [VideoCell::default(); DISPLAY_CELLS];
    }
}

/// After `set` has succeeded at `(column, row)`, `get` at the same place
/// gives the cell that was set, and every other cell of the grid is as it
/// was.
pub proof fn lemma_get_after_set(
    before: VideoMemory,
    after: VideoMemory,
    column: int,
    row: int,
    cell: VideoCell,
    other_column: int,
    other_row: int,
)
    requires
        0 <= column < DISPLAY_COLUMNS,
        0 <= row < DISPLAY_LINES,
        0 <= other_column < DISPLAY_COLUMNS,
        0 <= other_row < DISPLAY_LINES,
        after@ == before@.update(cell_index(column, row), cell),
    ensures
        after.cell(column, row) == cell,
        (other_column != column || other_row != row) ==> after.cell(other_column, other_row)
            == before.cell(other_column, other_row),
{
    broadcast use vstd::array::group_array_axioms;

    assert(before@.len() == DISPLAY_CELLS);
}

/// After `clear`, and in a grid just made, `get` gives the blank cell at
/// every place of the grid.
pub proof fn lemma_blank_everywhere(memory: VideoMemory, column: int, row: int)
    requires
        memory@ == blank_grid(),
        0 <= column < DISPLAY_COLUMNS,
        0 <= row < DISPLAY_LINES,
    ensures
        memory.cell(column, row) == VideoCell::blank(),
{
}

} // verus!
