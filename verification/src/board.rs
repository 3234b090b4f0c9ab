//! The mathematical model of a board, and what placement and the queries mean on it.

use vstd::prelude::*;
use crate::coord::{linear_index, Order};
use crate::hashing::{hash_of, key_of};
use crate::stones::{symbol_of, Color, Coord, Stone};

verus! {

/// A board as the contracts see it: a square grid stored row by row, the table
/// of keys that it hashes with, and the hash that it carries.
pub struct Board {
    /// Number of rows, and of columns.
    pub size: nat,
    /// What each intersection holds, row after row.
    pub grid: Seq<Color>,
    /// Two keys for each intersection: at `2 * i` the key of a black stone on
    /// intersection `i`, at `2 * i + 1` that of a white one.
    pub keys: Seq<u64>,
    /// The hash that placements have kept up to date.
    pub hash: u64,
}

/// Holds of the stones that are not empty intersections.
pub open spec fn is_occupied() -> spec_fn(Stone) -> bool {
    |stone: Stone| stone.color != Color::Empty
}

/// Holds of the stones of the given color.
pub open spec fn has_color(color: Color) -> spec_fn(Stone) -> bool {
    |stone: Stone| stone.color == color
}

/// The moves that put `color` on each of `coords`, in order.
pub open spec fn moves_of(coords: Seq<Coord>, color: Color) -> Seq<Stone> {
    Seq::new(coords.len(), |k: int| Stone { coordinates: coords[k], color })
}

impl Board {
    /// Number of intersections.
    pub open spec fn cells(self) -> nat {
        self.size * self.size
    }

    /// The grid and the key table have the lengths that the size asks for, and
    /// every coordinate of the board is a machine integer.
    pub open spec fn wf(self) -> bool {
        &&& self.size <= usize::MAX
        &&& self.grid.len() == self.cells()
        &&& self.keys.len() == 2 * self.cells()
    }

    /// Whether the coordinate lies on the board.
    pub open spec fn inside(self, coord: Coord) -> bool {
        coord.0 < self.size && coord.1 < self.size
    }

    /// Where the grid stores the intersection at `coord`.
    pub open spec fn index_of(self, coord: Coord) -> int {
        coord.0 * self.size + coord.1
    }

    /// What the intersection at `coord` holds.
    pub open spec fn color_at(self, coord: Coord) -> Color {
        self.grid[self.index_of(coord)]
    }

    /// Whether the black occupancy bit of intersection `index` is set.
    pub open spec fn black_occupied(self, index: int) -> bool {
        self.grid[index] == Color::Black
    }

    /// Whether the white occupancy bit of intersection `index` is set.
    pub open spec fn white_occupied(self, index: int) -> bool {
        self.grid[index] == Color::White
    }

    /// The black occupancy bits, one for each intersection.
    pub open spec fn black_bits(self) -> Seq<bool> {
        Seq::new(self.cells(), |i: int| self.black_occupied(i))
    }

    /// The white occupancy bits, one for each intersection.
    pub open spec fn white_bits(self) -> Seq<bool> {
        Seq::new(self.cells(), |i: int| self.white_occupied(i))
    }

    /// The hash computed from nothing but the grid.
    pub open spec fn full_hash(self) -> u64 {
        hash_of(self.keys, self.grid)
    }

    /// The carried hash is the one that the grid has.
    pub open spec fn hash_consistent(self) -> bool {
        self.hash == self.full_hash()
    }

    /// The board of the given size with no stone on it.
    pub open spec fn empty(size: nat, keys: Seq<u64>) -> Board {
        Board { size, grid: Seq::new(size * size, |i: int| Color::Empty), keys, hash: 0 }
    }

    /// The hash after `color` was written to intersection `index`. Placing a
    /// stone brings in the key of the new color and nothing else; clearing
    /// takes out the key of what was there.
    pub open spec fn pushed_hash(self, index: int, color: Color) -> u64 {
        match color {
            Color::Empty => match self.grid[index] {
                Color::Empty => self.hash,
                _ => self.hash ^ key_of(self.keys, index, self.grid[index]),
            },
            _ => self.hash ^ key_of(self.keys, index, color),
        }
    }

    /// The board after `push(coord, color)`: unchanged where the coordinate is
    /// off the board.
    pub open spec fn pushed(self, coord: Coord, color: Color) -> Board {
        if self.inside(coord) {
            Board {
                size: self.size,
                grid: self.grid.update(self.index_of(coord), color),
                keys: self.keys,
                hash: self.pushed_hash(self.index_of(coord), color),
            }
        } else {
            self
        }
    }

    /// The board after each of `moves` was pushed, in order.
    pub open spec fn placed(self, moves: Seq<Stone>) -> Board
        decreases moves.len(),
    {
        if moves.len() == 0 {
            self
        } else {
            self.placed(moves.drop_last()).pushed(moves.last().coordinates, moves.last().color)
        }
    }

    /// Whether a placement writes a stone over a stone: the one kind of move that
    /// lets the carried hash drift from the grid's.
    pub open spec fn overwrites(self, coord: Coord, color: Color) -> bool {
        self.inside(coord) && color != Color::Empty && self.color_at(coord) != Color::Empty
    }

    /// Whether none of `moves`, played in order, writes a stone over a stone.
    pub open spec fn clears_before_recoloring(self, moves: Seq<Stone>) -> bool {
        forall|k: int|
            0 <= k < moves.len() ==> !(#[trigger] self.placed(moves.take(k))).overwrites(
                moves[k].coordinates,
                moves[k].color,
            )
    }

    /// The board of the given size that a flat array of colors, read in
    /// `order`, stands for: each intersection holds the color that the array
    /// has at its index in that order, and the hash is that of the grid.
    pub open spec fn from_colors(colors: Seq<Color>, order: Order, size: nat, keys: Seq<u64>) -> Board {
        let grid = Seq::new(
            size * size,
            |i: int| colors[linear_index(size, size, order, i / (size as int), i % (size as int))],
        );
        Board { size, grid, keys, hash: hash_of(keys, grid) }
    }

    /// The intersection with the given index, as a stone.
    pub open spec fn cell(self, index: int) -> Stone {
        Stone {
            coordinates: ((index / (self.size as int)) as usize, (index % (self.size as int)) as usize),
            color: self.grid[index],
        }
    }

    /// Every intersection as a stone, by ascending index.
    pub open spec fn all_cells(self) -> Seq<Stone> {
        Seq::new(self.cells(), |i: int| self.cell(i))
    }

    /// The occupied intersections, by ascending index.
    pub open spec fn stones(self) -> Seq<Stone> {
        self.all_cells().filter(is_occupied())
    }

    /// The intersections that hold exactly `color`, by ascending index.
    pub open spec fn stones_by_color(self, color: Color) -> Seq<Stone> {
        self.all_cells().filter(has_color(color))
    }

    /// The intersection at `(row, column)` as a sequence of one stone, or of
    /// none where it is off the board.
    pub open spec fn cell_if_inside(self, row: int, column: int) -> Seq<Stone> {
        if 0 <= row < self.size && 0 <= column < self.size {
            seq![
                Stone {
                    coordinates: (row as usize, column as usize),
                    color: self.grid[row * self.size + column],
                },
            ]
        } else {
            Seq::empty()
        }
    }

    /// The intersections next to `coord` that lie on the board: the one above,
    /// the one below, the one to the left and the one to the right, in this order.
    pub open spec fn neighbors(self, coord: Coord) -> Seq<Stone> {
        self.cell_if_inside(coord.0 - 1, coord.1 as int) + self.cell_if_inside(
            coord.0 + 1,
            coord.1 as int,
        ) + self.cell_if_inside(coord.0 as int, coord.1 - 1) + self.cell_if_inside(
            coord.0 as int,
            coord.1 + 1,
        )
    }

    /// The occupied neighbors of `coord`.
    pub open spec fn neighbor_stones(self, coord: Coord) -> Seq<Stone> {
        self.neighbors(coord).filter(is_occupied())
    }

    /// The empty neighbors of `coord`.
    pub open spec fn liberties(self, coord: Coord) -> Seq<Stone> {
        self.neighbors(coord).filter(has_color(Color::Empty))
    }

    /// One row of the board as text, without the line end.
    pub open spec fn row_text(self, row: int) -> Seq<char> {
        Seq::new(self.size, |column: int| symbol_of(self.grid[row * self.size + column]))
    }

    /// The first `count` rows as text, each closed by a line end.
    pub open spec fn rows_text(self, count: nat) -> Seq<char>
        decreases count,
    {
        if count == 0 {
            Seq::empty()
        } else {
            self.rows_text((count - 1) as nat) + self.row_text(count - 1).push('\n')
        }
    }

    /// The whole board as text: one character for each intersection, one line
    /// for each row.
    pub open spec fn rendering(self) -> Seq<char> {
        self.rows_text(self.size)
    }
}

} // verus!
