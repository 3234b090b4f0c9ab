//! Value types that travel between the board and its callers.

use vstd::prelude::*;

verus! {

/// A position on the board: `(row, column)`, both counted from 0, with
/// `(0, 0)` in the top left corner.
pub type Coord = (usize, usize);

/// What an intersection holds.
#[derive(Clone, Copy, Debug, PartialEq, Eq, Hash, Structural)]
pub enum Color {
    Empty,
    Black,
    White,
}

/// An intersection together with what it holds. A stone whose color is
/// `Color::Empty` stands for an empty intersection.
#[derive(Clone, Copy, Debug, PartialEq, Eq, Hash)]
pub struct Stone {
    pub coordinates: Coord,
    pub color: Color,
}

/// Why a placement was refused.
#[derive(Clone, Copy, Debug, PartialEq, Eq, Hash)]
pub enum GobanError {
    /// The coordinate does not lie on the board.
    OutOfBounds(Coord),
}

/// The character that shows a white stone.
pub const WHITE_STONE: char = '\u{25CF}';

/// The character that shows a black stone.
pub const BLACK_STONE: char = '\u{25CB}';

/// The character that shows an empty intersection.
pub const EMPTY_STONE: char = '.';

/// The character that shows an intersection of the given color.
pub open spec fn symbol_of(color: Color) -> char {
    match color {
        Color::White => WHITE_STONE,
        Color::Black => BLACK_STONE,
        Color::Empty => EMPTY_STONE,
    }
}

/// The character that shows an intersection of the given color.
pub fn symbol(color: Color) -> (c: char)
    ensures
        c == symbol_of(color),
{
    match color {
        Color::White => WHITE_STONE,
        Color::Black => BLACK_STONE,
        Color::Empty => EMPTY_STONE,
    }
}

} // verus!
