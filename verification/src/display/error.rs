//! The failures the display reports to its caller.

use vstd::prelude::*;
use vstd::string::StringExecFns;

verus! {

/// The character of the digit `d`.
pub open spec fn digit(d: nat) -> char {
    ('0' as nat + d) as char
}

/// `n` written in decimal, without leading zeros.
pub open spec fn decimal(n: nat) -> Seq<char>
    decreases n,
{
    if n < 10 {
        seq![digit(n)]
    } else {
        decimal(n / 10).push(digit(n % 10))
    }
}

fn digit_text(d: usize) -> (text: &'static str)
    requires
        d < 10,
    ensures
        text@ == seq![digit(d as nat)],
{
    proof {
        reveal_strlit("0");
        reveal_strlit("1");
        reveal_strlit("2");
        reveal_strlit("3");
        reveal_strlit("4");
        reveal_strlit("5");
        reveal_strlit("6");
        reveal_strlit("7");
        reveal_strlit("8");
        reveal_strlit("9");
    }
    let text = if d == 0 {
        "0"
    } else if d == 1 {
        "1"
    } else if d == 2 {
        "2"
    } else if d == 3 {
        "3"
    } else if d == 4 {
        "4"
    } else if d == 5 {
        "5"
    } else if d == 6 {
        "6"
    } else if d == 7 {
        "7"
    } else if d == 8 {
        "8"
    } else {
        "9"
    };
    assert(text@ =~= seq![digit(d as nat)]);
    text
}

fn append_decimal(text: &mut String, n: usize)
    ensures
        final(text)@ == old(text)@ + decimal(n as nat),
    decreases n,
{
    if n >= 10 {
        append_decimal(text, n / 10);
    }
    text.append(digit_text(n % 10));
    assert(text@ =~= old(text)@ + decimal(n as nat));
}

/// A grid coordinate outside the grid.
#[derive(Debug, Clone, Copy, PartialEq, Eq, Structural)]
pub enum BoundsError {
    /// `column` is not below `limit`, the number of columns.
    Column { column: usize, limit: usize },
    /// `row` is not below `limit`, the number of lines.
    Row { row: usize, limit: usize },
}

impl BoundsError {
    /// What `message` gives: the coordinate that left the grid, and the
    /// range it had to stay in.
    pub open spec fn message_spec(self) -> Seq<char> {
        match self {
            BoundsError::Column { column, limit } => "column "@ + decimal(column as nat)
                + " exceeds allowed columns (0.."@ + decimal(limit as nat) + ")"@,
            BoundsError::Row { row, limit } => "row "@ + decimal(row as nat)
                + " exceeds allowed rows (0.."@ + decimal(limit as nat) + ")"@,
        }
    }

    /// The failure in words, such as `column 90 exceeds allowed columns
    /// (0..90)`.
    pub fn message(&self) -> (text: String)
        ensures
            text@ == self.message_spec(),
    {
        match *self {
            BoundsError::Column { column, limit } => {
                let mut text = String::from_str("column ");
                append_decimal(&mut text, column);
                text.append(" exceeds allowed columns (0..");
                append_decimal(&mut text, limit);
                text.append(")");
                text
            },
            BoundsError::Row { row, limit } => {
                let mut text = String::from_str("row ");
                append_decimal(&mut text, row);
                text.append(" exceeds allowed rows (0..");
                append_decimal(&mut text, limit);
                text.append(")");
                text
            },
        }
    }
}

/// Why a frame could not be drawn.
#[derive(Debug, PartialEq, Eq)]
pub enum RenderError<E> {
    /// The framebuffer holds `actual` bytes where `expected` are needed.
    FrameSize { expected: usize, actual: usize },
    /// A coordinate left the grid.
    Bounds(BoundsError),
    /// The rasterizer failed, with `source`, on the character of the cell
    /// at `(column, row)`.
    Rasterizer { column: usize, row: usize, source: E },
}

} // verus!
