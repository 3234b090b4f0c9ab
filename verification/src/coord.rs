//! Conversion between `(row, column)` coordinates and positions in a flat array.

use vstd::prelude::*;
use vstd::arithmetic::div_mod::lemma_fundamental_div_mod_converse;
use crate::stones::Coord;

verus! {

/// How a flat array of cells is laid out over the grid.
#[derive(Clone, Copy, Debug, PartialEq, Eq, Hash, Structural)]
pub enum Order {
    /// Rows follow each other: the index of `(row, column)` is `row * width + column`.
    RowMajor,
    /// Columns follow each other: the index of `(row, column)` is `column * height + row`.
    ColumnMajor,
}

/// The index of the cell at `(row, column)` in a grid of `width` columns and `height` rows.
pub open spec fn linear_index(width: nat, height: nat, order: Order, row: int, column: int) -> int {
    match order {
        Order::RowMajor => row * width + column,
        Order::ColumnMajor => column * height + row,
    }
}

/// The `(row, column)` of the cell with the given index.
pub open spec fn grid_coord(width: nat, height: nat, order: Order, index: int) -> (int, int) {
    match order {
        Order::RowMajor => (index / (width as int), index % (width as int)),
        Order::ColumnMajor => (index % (height as int), index / (height as int)),
    }
}

/// `row * width + column` is a cell of the grid, and division by `width` gives
/// the row and the column back.
proof fn lemma_split(width: int, height: int, row: int, column: int)
    requires
        0 <= row < height,
        0 <= column < width,
    ensures
        0 <= row * width + column < width * height,
        (row * width + column) / width == row,
        (row * width + column) % width == column,
{
    assert(0 <= row * width && row * width + width <= width * height) by (nonlinear_arith)
        requires
            0 <= row < height,
            0 < width,
    ;
    lemma_fundamental_div_mod_converse(row * width + column, width, row, column);
}

/// Quotient and remainder of an index by `width` are a row and a column of the
/// grid, and give the index back.
proof fn lemma_join(width: int, height: int, index: int)
    requires
        0 <= width,
        0 <= index < width * height,
    ensures
        0 <= index / width < height,
        0 <= index % width < width,
        (index / width) * width + index % width == index,
{
    assert(0 < width) by (nonlinear_arith)
        requires
            0 <= width,
            0 <= index < width * height,
    ;
    assert(0 <= index / width < height && 0 <= index % width < width && (index / width) * width
        + index % width == index) by (nonlinear_arith)
        requires
            0 <= index < width * height,
            0 < width,
    ;
}

/// Going from a coordinate of the grid to its index and back gives the
/// coordinate again, whatever the order.
pub proof fn lemma_coord_round_trip(width: nat, height: nat, order: Order, row: int, column: int)
    requires
        0 <= row < height,
        0 <= column < width,
    ensures
        0 <= linear_index(width, height, order, row, column) < width * height,
        grid_coord(width, height, order, linear_index(width, height, order, row, column)) == (
            row,
            column,
        ),
{
    match order {
        Order::RowMajor => {
            lemma_split(width as int, height as int, row, column);
        },
        Order::ColumnMajor => {
            lemma_split(height as int, width as int, column, row);
            assert(height * width == width * height) by (nonlinear_arith);
        },
    }
}

/// Going from an index of the grid to its coordinate and back gives the index
/// again, whatever the order; the coordinate lies in the grid.
pub proof fn lemma_index_round_trip(width: nat, height: nat, order: Order, index: int)
    requires
        0 <= index < width * height,
    ensures
        0 <= grid_coord(width, height, order, index).0 < height,
        0 <= grid_coord(width, height, order, index).1 < width,
        linear_index(
            width,
            height,
            order,
            grid_coord(width, height, order, index).0,
            grid_coord(width, height, order, index).1,
        ) == index,
{
    match order {
        Order::RowMajor => {
            lemma_join(width as int, height as int, index);
        },
        Order::ColumnMajor => {
            assert(height * width == width * height) by (nonlinear_arith);
            lemma_join(height as int, width as int, index);
        },
    }
}

/// Converts between the coordinates of a grid and the indices of its cells.
#[derive(Clone, Copy, Debug)]
pub struct CoordUtil {
    width: usize,
    height: usize,
    order: Order,
}

impl CoordUtil {
    /// The number of cells fits in a `usize`, so no index overflows.
    #[verifier::type_invariant]
    spec fn cells_fit(self) -> bool {
        self.width * self.height <= usize::MAX
    }

    /// Number of columns.
    pub closed spec fn width(&self) -> nat {
        self.width as nat
    }

    /// Number of rows.
    pub closed spec fn height(&self) -> nat {
        self.height as nat
    }

    /// The layout that indices follow.
    pub closed spec fn order(&self) -> Order {
        self.order
    }

    /// Whether the coordinate names a cell of the grid.
    pub open spec fn inside(&self, coord: Coord) -> bool {
        coord.0 < self.height() && coord.1 < self.width()
    }

    /// The index that `to` gives for a coordinate.
    pub open spec fn index_of(&self, coord: Coord) -> int {
        linear_index(self.width(), self.height(), self.order(), coord.0 as int, coord.1 as int)
    }

    /// The coordinate that `from` gives for an index.
    pub open spec fn coord_of(&self, index: int) -> (int, int) {
        grid_coord(self.width(), self.height(), self.order(), index)
    }

    /// A row-major mapper for a grid of `width` columns and `height` rows.
    pub fn new(width: usize, height: usize) -> (mapper: CoordUtil)
        requires
            width * height <= usize::MAX,
        ensures
            mapper.width() == width,
            mapper.height() == height,
            mapper.order() == Order::RowMajor,
    {
        CoordUtil { width, height, order: Order::RowMajor }
    }

    /// A mapper for a grid of `width` columns and `height` rows, laid out in `order`.
    pub fn new_order(width: usize, height: usize, order: Order) -> (mapper: CoordUtil)
        requires
            width * height <= usize::MAX,
        ensures
            mapper.width() == width,
            mapper.height() == height,
            mapper.order() == order,
    {
        CoordUtil { width, height, order }
    }

    /// The index of the cell at `coord`.
    pub fn to(&self, coord: Coord) -> (index: usize)
        requires
            self.inside(coord),
        ensures
            index == self.index_of(coord),
            index < self.width() * self.height(),
            self.coord_of(index as int) == (coord.0 as int, coord.1 as int),
    {
        proof {
            use_type_invariant(self);
            lemma_coord_round_trip(
                self.width(),
                self.height(),
                self.order(),
                coord.0 as int,
                coord.1 as int,
            );
            assert(0 <= coord.0 * self.width && 0 <= coord.1 * self.height) by (nonlinear_arith);
        }
        match self.order {
            Order::RowMajor => coord.0 * self.width + coord.1,
            Order::ColumnMajor => coord.1 * self.height + coord.0,
        }
    }

    /// The coordinate of the cell with the given index.
    pub fn from(&self, index: usize) -> (coord: Coord)
        requires
            index < self.width() * self.height(),
        ensures
            (coord.0 as int, coord.1 as int) == self.coord_of(index as int),
            self.inside(coord),
            self.index_of(coord) == index,
    {
        proof {
            lemma_index_round_trip(self.width(), self.height(), self.order(), index as int);
            assert(self.width > 0 && self.height > 0) by (nonlinear_arith)
                requires
                    index < self.width * self.height,
            ;
        }
        match self.order {
            Order::RowMajor => (index / self.width, index % self.width),
            Order::ColumnMajor => (index % self.height, index / self.height),
        }
    }
}

} // verus!
