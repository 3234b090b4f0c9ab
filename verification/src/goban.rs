//! The board: a grid of intersections with its occupancy bits and its running hash.

use vstd::prelude::*;
use vstd::std_specs::cmp::PartialEqSpecImpl;
use crate::board::{has_color, is_occupied, moves_of, Board};
use crate::coord::{
    grid_coord, lemma_coord_round_trip, lemma_index_round_trip, linear_index, CoordUtil, Order,
};
use crate::hashing::{hash_of_prefix, lemma_hash_of_empty, lemma_xor_zero};
use crate::laws::{lemma_push_keeps_hash, lemma_pushed_wf};
use crate::sqrt::{int_sqrt, integer_sqrt, is_square};
use crate::stones::{symbol, Color, Coord, GobanError, Stone};
use crate::text::push_char;
use crate::zobrist::{zobrist_keys, ZobristTable};

verus! {

/// Where the flat array holds the color of the intersection that the grid
/// stores at `index`.
spec fn source_of(size: nat, order: Order, index: int) -> int {
    linear_index(size, size, order, index / (size as int), index % (size as int))
}

/// The grid holds the first `done` entries of the flat array, each at its
/// intersection, and nothing else.
spec fn filled_upto(colors: Seq<Color>, order: Order, size: nat, grid: Seq<Color>, done: int) -> bool {
    &&& grid.len() == size * size
    &&& forall|i: int|
        0 <= i < size * size ==> #[trigger] grid[i] == if 0 <= source_of(size, order, i) < done {
            colors[source_of(size, order, i)]
        } else {
            Color::Empty
        }
}

/// Entry `done` of the flat array belongs to an intersection that is still
/// empty, and writing it there fills the grid one entry further.
proof fn lemma_fill_step(
    colors: Seq<Color>,
    order: Order,
    size: nat,
    grid: Seq<Color>,
    done: int,
    coord: Coord,
)
    requires
        filled_upto(colors, order, size, grid, done),
        0 <= done < size * size,
        (coord.0 as int, coord.1 as int) == grid_coord(size, size, order, done),
    ensures
        0 <= coord.0 * size + coord.1 < size * size,
        grid[coord.0 * size + coord.1] == Color::Empty,
        filled_upto(colors, order, size, grid.update(coord.0 * size + coord.1, colors[done]), done + 1),
{
    let target = coord.0 * size + coord.1;
    lemma_index_round_trip(size, size, order, done);
    lemma_coord_round_trip(size, size, Order::RowMajor, coord.0 as int, coord.1 as int);
    assert(source_of(size, order, target) == done);
    let after = grid.update(target, colors[done]);
    assert forall|i: int| 0 <= i < size * size implies #[trigger] after[i] == if 0 <= source_of(
        size,
        order,
        i,
    ) < done + 1 {
        colors[source_of(size, order, i)]
    } else {
        Color::Empty
    } by {
        if i != target {
            lemma_index_round_trip(size, size, Order::RowMajor, i);
            lemma_coord_round_trip(size, size, order, i / (size as int), i % (size as int));
            assert(grid[i] == after[i]);
        }
    }
}

/// The occupied ones among `stones`, in their order.
fn keep_occupied(stones: &Vec<Stone>) -> (kept: Vec<Stone>)
    ensures
        kept@ == stones@.filter(is_occupied()),
{
    let mut kept: Vec<Stone> = Vec::new();
    let mut k: usize = 0;
    assert(stones@.take(0) =~= Seq::empty());
    assert(stones@.take(0).filter(is_occupied()) =~= Seq::empty()) by {
        reveal(Seq::filter);
    }
    while k < stones.len()
        invariant
            k <= stones@.len(),
            kept@ == stones@.take(k as int).filter(is_occupied()),
        decreases stones@.len() - k,
    {
        let stone = stones[k];
        proof {
            assert(stones@.take(k + 1) =~= stones@.take(k as int).push(stone));
            stones@.take(k as int).lemma_filter_push(stone, is_occupied());
        }
        if stone.color != Color::Empty {
            kept.push(stone);
        }
        k += 1;
    }
    assert(stones@.take(stones@.len() as int) =~= stones@);
    kept
}

/// The ones among `stones` that have the given color, in their order.
fn keep_color(stones: &Vec<Stone>, color: Color) -> (kept: Vec<Stone>)
    ensures
        kept@ == stones@.filter(has_color(color)),
{
    let mut kept: Vec<Stone> = Vec::new();
    let mut k: usize = 0;
    assert(stones@.take(0) =~= Seq::empty());
    assert(stones@.take(0).filter(has_color(color)) =~= Seq::empty()) by {
        reveal(Seq::filter);
    }
    while k < stones.len()
        invariant
            k <= stones@.len(),
            kept@ == stones@.take(k as int).filter(has_color(color)),
        decreases stones@.len() - k,
    {
        let stone = stones[k];
        proof {
            assert(stones@.take(k + 1) =~= stones@.take(k as int).push(stone));
            stones@.take(k as int).lemma_filter_push(stone, has_color(color));
        }
        if stone.color == color {
            kept.push(stone);
        }
        k += 1;
    }
    assert(stones@.take(stones@.len() as int) =~= stones@);
    kept
}

/// A square board. It owns its grid, one occupancy bit for each color and
/// intersection, the table of keys that it hashes with, and the hash that
/// every placement keeps up to date.
#[derive(Debug)]
pub struct Goban {
    /// What each intersection holds, row after row.
    tab: Vec<Color>,
    /// Whether each intersection holds a black stone.
    b_stones: Vec<bool>,
    /// Whether each intersection holds a white stone.
    w_stones: Vec<bool>,
    size: usize,
    coord_util: CoordUtil,
    zobrist: ZobristTable,
    hash: u64,
}

impl View for Goban {
    type V = Board;

    closed spec fn view(&self) -> Board {
        Board {
            size: self.size as nat,
            grid: self.tab@,
            keys: self.zobrist.keys(),
            hash: self.hash,
        }
    }
}

impl Goban {
    /// The four per-intersection structures have one entry for each
    /// intersection, the occupancy bits say what the grid says, and the mapper
    /// and the key table are those of a board of this size.
    pub closed spec fn wf(&self) -> bool {
        &&& self.tab@.len() == self.size * self.size
        &&& self.b_stones@.len() == self.size * self.size
        &&& self.w_stones@.len() == self.size * self.size
        &&& self.coord_util.width() == self.size
        &&& self.coord_util.height() == self.size
        &&& self.coord_util.order() == Order::RowMajor
        &&& self.zobrist.wf()
        &&& self.zobrist.dimension() == self.size
        &&& forall|i: int|
            0 <= i < self.size * self.size ==> self.b_stones@[i] == (#[trigger] self.tab@[i]
                == Color::Black) && self.w_stones@[i] == (self.tab@[i] == Color::White)
    }

    /// A well-formed board has a well-formed model, whose key table fits the
    /// machine.
    pub proof fn lemma_wf(&self)
        requires
            self.wf(),
        ensures
            self@.wf(),
            2 * self@.cells() <= usize::MAX,
    {
        self.zobrist.lemma_fits();
    }

    /// What each intersection holds, row after row.
    pub fn tab(&self) -> (tab: &Vec<Color>)
        ensures
            tab@ == self@.grid,
    {
        &self.tab
    }

    /// For each intersection, whether it holds a black stone.
    pub fn b_stones(&self) -> (bits: &Vec<bool>)
        ensures
            self.wf() ==> bits@ == self@.black_bits(),
    {
        assert(self.wf() ==> self.b_stones@ =~= self@.black_bits());
        &self.b_stones
    }

    /// For each intersection, whether it holds a white stone.
    pub fn w_stones(&self) -> (bits: &Vec<bool>)
        ensures
            self.wf() ==> bits@ == self@.white_bits(),
    {
        assert(self.wf() ==> self.w_stones@ =~= self@.white_bits());
        &self.w_stones
    }

    /// Number of rows, and of columns.
    pub fn size(&self) -> (size: &usize)
        ensures
            *size == self@.size,
    {
        &self.size
    }

    /// The hash that the placements have kept up to date.
    pub fn hash(&self) -> (hash: &u64)
        ensures
            *hash == self@.hash,
    {
        &self.hash
    }

    /// The hash of the grid as it stands, computed from nothing else. It is the
    /// carried hash as long as no placement wrote a stone over a stone.
    pub fn compute_hash(&self) -> (hash: u64)
        requires
            self.wf(),
        ensures
            hash == self@.full_hash(),
    {
        let mut hash: u64 = 0;
        let mut index: usize = 0;
        while index < self.tab.len()
            invariant
                self.wf(),
                index <= self.tab@.len(),
                hash == hash_of_prefix(self@.keys, self@.grid, index as nat),
            decreases self.tab@.len() - index,
        {
            let color = self.tab[index];
            if color != Color::Empty {
                hash = hash ^ self.zobrist.key(self.coord_util.from(index), color);
            } else {
                proof {
                    lemma_xor_zero(hash);
                }
            }
            index += 1;
        }
        hash
    }

    /// The empty board that hashes with the given table, as large as the table.
    pub fn with_zobrist(zobrist: ZobristTable) -> (board: Goban)
        requires
            zobrist.wf(),
        ensures
            board.wf(),
            board@ == Board::empty(zobrist.dimension(), zobrist.keys()),
    {
        let size = zobrist.n();
        proof {
            zobrist.lemma_fits();
        }
        let board = Goban {
            tab: vec![Color::Empty; size * size],
            size,
            coord_util: CoordUtil::new(size, size),
            b_stones: vec![false; size * size],
            w_stones: vec![false; size * size],
            zobrist,
            hash: 0,
        };
        assert(board@.grid =~= Board::empty(size as nat, zobrist.keys()).grid);
        board
    }

    /// The empty board of the given size: no stone, the hash zero.
    pub fn new(size: usize) -> (board: Goban)
        requires
            2 * (size * size) <= usize::MAX,
        ensures
            board.wf(),
            board@ == Board::empty(size as nat, zobrist_keys(size as nat)),
    {
        Goban::with_zobrist(ZobristTable::new(size))
    }

    /// The board that a flat array of colors stands for. The array holds one
    /// color for each intersection of a square board, in the given order, so
    /// its length is a square and the board is as wide as the root of it; each
    /// stone in the array is placed at its intersection.
    pub fn from_array(stones: &[Color], order: Order) -> (board: Goban)
        requires
            is_square(stones@.len()),
            2 * stones@.len() <= usize::MAX,
        ensures
            board.wf(),
            board@ == Board::from_colors(
                stones@,
                order,
                int_sqrt(stones@.len()),
                zobrist_keys(int_sqrt(stones@.len())),
            ),
    {
        let size = integer_sqrt(stones.len());
        let mut g = Goban::new(size);
        let coord_util = CoordUtil::new_order(size, size, order);
        proof {
            lemma_hash_of_empty(g@.keys, g@.grid, g@.grid.len());
        }
        let mut k: usize = 0;
        while k < stones.len()
            invariant
                k <= stones@.len(),
                stones@.len() == size * size,
                coord_util.width() == size,
                coord_util.height() == size,
                coord_util.order() == order,
                g.wf(),
                g@.size == size,
                g@.keys == zobrist_keys(size as nat),
                g@.hash_consistent(),
                filled_upto(stones@, order, size as nat, g@.grid, k as int),
            decreases stones@.len() - k,
        {
            let color = stones[k];
            let coord = coord_util.from(k);
            proof {
                g.lemma_wf();
                lemma_fill_step(stones@, order, size as nat, g@.grid, k as int, coord);
                lemma_push_keeps_hash(g@, coord, color);
            }
            if color != Color::Empty {
                let _ = g.push(coord, color);
            } else {
                assert(g@.grid.update(coord.0 * size + coord.1, color) =~= g@.grid);
            }
            k += 1;
        }
        proof {
            let wanted = Board::from_colors(stones@, order, size as nat, zobrist_keys(size as nat));
            assert forall|i: int| 0 <= i < size * size implies g@.grid[i] == wanted.grid[i] by {
                lemma_index_round_trip(size as nat, size as nat, Order::RowMajor, i);
                lemma_coord_round_trip(size as nat, size as nat, order, i / (size as int), i % (size as int));
            }
            assert(g@.grid =~= wanted.grid);
        }
        g
    }

    /// Whether the coordinate lies on the board.
    fn coord_valid(&self, coord: Coord) -> (valid: bool)
        ensures
            valid == self@.inside(coord),
    {
        coord.0 < self.size && coord.1 < self.size
    }

    /// What the intersection at `coord` holds.
    pub fn color_at(&self, coord: Coord) -> (color: Color)
        requires
            self.wf(),
            self@.inside(coord),
        ensures
            color == self@.color_at(coord),
    {
        self.tab[self.coord_util.to(coord)]
    }

    /// Writes `color` to the intersection at `point`. Placing a stone sets the
    /// occupancy bit of its color and brings the key of the new stone into the
    /// hash; clearing unsets both bits and takes the key of the old stone out.
    /// Off the board nothing changes and the coordinate comes back as the error.
    pub fn push(&mut self, point: Coord, color: Color) -> (result: Result<&mut Goban, GobanError>)
        requires
            old(self).wf(),
        ensures
            match result {
                Ok(board) => old(self)@.inside(point) && board.wf() && board@ == old(self)@.pushed(
                    point,
                    color,
                ) && *final(self) == *final(board),
                Err(error) => !old(self)@.inside(point) && error == GobanError::OutOfBounds(point)
                    && *final(self) == *old(self),
            },
    {
        if self.coord_valid(point) {
            let i = self.coord_util.to(point);
            match color {
                Color::Black => {
                    self.b_stones[i] = true;
                    self.w_stones[i] = false;
                },
                Color::White => {
                    self.w_stones[i] = true;
                    self.b_stones[i] = false;
                },
                Color::Empty => {
                    self.b_stones[i] = false;
                    self.w_stones[i] = false;
                },
            }
            if color == Color::Empty {
                let previous = self.tab[i];
                if previous != Color::Empty {
                    self.hash = self.hash ^ self.zobrist.key(point, previous);
                }
            } else {
                self.hash = self.hash ^ self.zobrist.key(point, color);
            }
            self.tab[i] = color;
            assert(self@.grid =~= old(self)@.pushed(point, color).grid);
            Ok(self)
        } else {
            Err(GobanError::OutOfBounds(point))
        }
    }

    /// Writes `value` to each of `coords`, in order. Every coordinate has to lie
    /// on the board.
    pub fn push_many(&mut self, coords: &[Coord], value: Color)
        requires
            old(self).wf(),
            forall|k: int| 0 <= k < coords@.len() ==> old(self)@.inside(#[trigger] coords@[k]),
        ensures
            final(self).wf(),
            final(self)@ == old(self)@.placed(moves_of(coords@, value)),
    {
        let mut k: usize = 0;
        assert(moves_of(coords@.take(0), value) =~= Seq::empty());
        while k < coords.len()
            invariant
                k <= coords@.len(),
                self.wf(),
                self@.size == old(self)@.size,
                forall|j: int| 0 <= j < coords@.len() ==> old(self)@.inside(#[trigger] coords@[j]),
                self@ == old(self)@.placed(moves_of(coords@.take(k as int), value)),
            decreases coords@.len() - k,
        {
            proof {
                let next = moves_of(coords@.take(k + 1), value);
                assert(next.drop_last() =~= moves_of(coords@.take(k as int), value));
                assert(next.last() == Stone { coordinates: coords@[k as int], color: value });
                lemma_pushed_wf(self@, coords@[k as int], value);
            }
            let _ = self.push(coords[k], value);
            k += 1;
        }
        assert(coords@.take(coords@.len() as int) =~= coords@);
    }

    /// Appends the intersection at `(row, column)` to `found` if it lies on the
    /// board.
    fn collect_cell(&self, row: usize, column: usize, found: &mut Vec<Stone>)
        requires
            self.wf(),
        ensures
            final(found)@ == old(found)@ + self@.cell_if_inside(row as int, column as int),
    {
        if self.coord_valid((row, column)) {
            let color = self.color_at((row, column));
            found.push(Stone { coordinates: (row, column), color });
        }
    }

    /// The intersection with the given index, as a stone.
    fn cell(&self, index: usize) -> (stone: Stone)
        requires
            self.wf(),
            index < self@.cells(),
        ensures
            stone == self@.cell(index as int),
            stone == self@.all_cells()[index as int],
    {
        Stone { coordinates: self.coord_util.from(index), color: self.tab[index] }
    }

    /// The intersections next to `coord` that lie on the board, each with the
    /// color that it holds now: above, below, left, right.
    pub fn get_neighbors(&self, coord: Coord) -> (found: Vec<Stone>)
        requires
            self.wf(),
        ensures
            found@ == self@.neighbors(coord),
    {
        let (row, column) = coord;
        let mut found: Vec<Stone> = Vec::new();
        if row > 0 {
            self.collect_cell(row - 1, column, &mut found);
        }
        if row < usize::MAX {
            self.collect_cell(row + 1, column, &mut found);
        }
        if column > 0 {
            self.collect_cell(row, column - 1, &mut found);
        }
        if column < usize::MAX {
            self.collect_cell(row, column + 1, &mut found);
        }
        assert(found@ =~= self@.neighbors(coord));
        found
    }

    /// The neighbors of `coord` that hold a stone.
    pub fn get_neighbors_stones(&self, coord: Coord) -> (found: Vec<Stone>)
        requires
            self.wf(),
        ensures
            found@ == self@.neighbor_stones(coord),
    {
        keep_occupied(&self.get_neighbors(coord))
    }

    /// Every intersection that holds a stone, by ascending index.
    pub fn get_stones(&self) -> (found: Vec<Stone>)
        requires
            self.wf(),
        ensures
            found@ == self@.stones(),
    {
        let ghost cells = self@.all_cells();
        let mut found: Vec<Stone> = Vec::new();
        let mut index: usize = 0;
        proof {
            reveal(Seq::filter);
            assert(cells.take(0) =~= Seq::empty());
        }
        while index < self.tab.len()
            invariant
                self.wf(),
                cells == self@.all_cells(),
                index <= self@.cells(),
                self.tab@.len() == self@.cells(),
                found@ == cells.take(index as int).filter(is_occupied()),
            decreases self@.cells() - index,
        {
            let stone = self.cell(index);
            proof {
                assert(cells.take(index + 1) =~= cells.take(index as int).push(stone));
                cells.take(index as int).lemma_filter_push(stone, is_occupied());
            }
            if stone.color != Color::Empty {
                found.push(stone);
            }
            index += 1;
        }
        assert(cells.take(index as int) =~= cells);
        found
    }

    /// Every intersection that holds exactly `color`, by ascending index; for
    /// `Color::Empty`, every empty intersection.
    pub fn get_stones_by_color(&self, color: Color) -> (found: Vec<Stone>)
        requires
            self.wf(),
        ensures
            found@ == self@.stones_by_color(color),
    {
        let ghost cells = self@.all_cells();
        let mut found: Vec<Stone> = Vec::new();
        let mut index: usize = 0;
        proof {
            reveal(Seq::filter);
            assert(cells.take(0) =~= Seq::empty());
        }
        while index < self.tab.len()
            invariant
                self.wf(),
                cells == self@.all_cells(),
                index <= self@.cells(),
                self.tab@.len() == self@.cells(),
                found@ == cells.take(index as int).filter(has_color(color)),
            decreases self@.cells() - index,
        {
            let stone = self.cell(index);
            proof {
                assert(cells.take(index + 1) =~= cells.take(index as int).push(stone));
                cells.take(index as int).lemma_filter_push(stone, has_color(color));
            }
            if stone.color == color {
                found.push(stone);
            }
            index += 1;
        }
        assert(cells.take(index as int) =~= cells);
        found
    }

    /// The empty neighbors of the stone's intersection.
    pub fn get_liberties(&self, point: Stone) -> (found: Vec<Stone>)
        requires
            self.wf(),
        ensures
            found@ == self@.liberties(point.coordinates),
    {
        keep_color(&self.get_neighbors(point.coordinates), Color::Empty)
    }

    /// The number of liberties of the stone.
    pub fn get_nb_liberties(&self, point: Stone) -> (count: u8)
        requires
            self.wf(),
        ensures
            count == self@.liberties(point.coordinates).len(),
            count <= 4,
    {
        let liberties = self.get_liberties(point);
        proof {
            self@.neighbors(point.coordinates).lemma_filter_len(has_color(Color::Empty));
        }
        liberties.len() as u8
    }

    /// Whether the stone has a liberty.
    pub fn has_liberties(&self, point: Stone) -> (any: bool)
        requires
            self.wf(),
        ensures
            any == (self@.liberties(point.coordinates).len() > 0),
    {
        self.get_liberties(point).len() > 0
    }

    /// The board as text in the order of the grid: one line for each row, the
    /// first row first, one character for each intersection.
    pub fn raw_string(&self) -> (text: String)
        requires
            self.wf(),
        ensures
            text@ == self@.rendering(),
    {
        let mut buff = String::new();
        let mut i: usize = 0;
        while i < self.size
            invariant
                self.wf(),
                i <= self.size,
                buff@ == self@.rows_text(i as nat),
            decreases self.size - i,
        {
            let ghost before = buff@;
            let mut j: usize = 0;
            while j < self.size
                invariant
                    self.wf(),
                    i < self.size,
                    j <= self.size,
                    buff@ == before + self@.row_text(i as int).take(j as int),
                decreases self.size - j,
            {
                let color = self.color_at((i, j));
                push_char(&mut buff, symbol(color));
                proof {
                    assert(self@.row_text(i as int).take(j + 1) =~= self@.row_text(i as int).take(
                        j as int,
                    ).push(self@.row_text(i as int)[j as int]));
                    assert(buff@ =~= before + self@.row_text(i as int).take(j + 1));
                }
                j += 1;
            }
            push_char(&mut buff, '\n');
            proof {
                assert(self@.row_text(i as int).take(self.size as int) =~= self@.row_text(i as int));
                assert(buff@ =~= before + self@.row_text(i as int).push('\n'));
            }
            i += 1;
        }
        buff
    }

    /// The board as text for display: the same lines as `raw_string`.
    pub fn pretty_string(&self) -> (text: String)
        requires
            self.wf(),
        ensures
            text@ == self@.rendering(),
    {
        self.raw_string()
    }

    /// Writes the color of `stone` to its intersection, as `push` does.
    pub fn push_stone(&mut self, stone: Stone) -> (result: Result<&mut Goban, GobanError>)
        requires
            old(self).wf(),
        ensures
            match result {
                Ok(board) => old(self)@.inside(stone.coordinates) && board.wf() && board@ == old(
                    self,
                )@.pushed(stone.coordinates, stone.color) && *final(self) == *final(board),
                Err(error) => !old(self)@.inside(stone.coordinates) && error
                    == GobanError::OutOfBounds(stone.coordinates) && *final(self) == *old(self),
            },
    {
        self.push(stone.coordinates, stone.color)
    }
}

/// Two boards are taken for equal where their hashes are: a comparison in
/// constant time, which tells two boards apart unless their hashes collide.
impl PartialEq for Goban {
    fn eq(&self, other: &Goban) -> (equal: bool) {
        other.hash == self.hash
    }
}

impl PartialEqSpecImpl for Goban {
    open spec fn obeys_eq_spec() -> bool {
        true
    }

    open spec fn eq_spec(&self, other: &Goban) -> bool {
        other@.hash == self@.hash
    }
}

impl Eq for Goban {

}

impl Default for Goban {
    /// The empty board of 19 rows.
    fn default() -> (board: Goban)
        ensures
            board.wf(),
            board@ == Board::empty(19, zobrist_keys(19)),
    {
        Goban::new(19)
    }
}

impl Clone for Goban {
    /// A board of its own with the same content.
    fn clone(&self) -> (copy: Goban)
        ensures
            copy@ == self@,
            copy.wf() == self.wf(),
    {
        Goban {
            tab: self.tab.clone(),
            b_stones: self.b_stones.clone(),
            w_stones: self.w_stones.clone(),
            size: self.size,
            coord_util: self.coord_util,
            zobrist: self.zobrist.clone(),
            hash: self.hash,
        }
    }
}

} // verus!
