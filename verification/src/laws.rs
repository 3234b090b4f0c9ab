//! What holds of every board: the laws that placement and the queries obey.

use vstd::prelude::*;
use crate::board::{has_color, is_occupied, Board};
use crate::coord::{lemma_coord_round_trip, Order};
use crate::hashing::{
    key_of, lemma_hash_of_empty, lemma_hash_of_update, lemma_xor_cancel, lemma_xor_zero,
};
use crate::stones::{Color, Coord, Stone};

verus! {

/// An intersection of the board is stored inside the grid.
pub proof fn lemma_index_in_grid(board: Board, coord: Coord)
    requires
        board.inside(coord),
    ensures
        0 <= board.index_of(coord) < board.cells(),
{
    lemma_coord_round_trip(board.size, board.size, Order::RowMajor, coord.0 as int, coord.1 as int);
}

/// A placement leaves a well-formed board well-formed: the size, the key table
/// and the length of the grid stay.
pub proof fn lemma_pushed_wf(board: Board, coord: Coord, color: Color)
    requires
        board.wf(),
    ensures
        board.pushed(coord, color).wf(),
        board.pushed(coord, color).size == board.size,
        board.pushed(coord, color).keys == board.keys,
{
    if board.inside(coord) {
        lemma_index_in_grid(board, coord);
    }
}

/// After any sequence of placements the board is still well-formed.
pub proof fn lemma_placed_wf(board: Board, moves: Seq<Stone>)
    requires
        board.wf(),
    ensures
        board.placed(moves).wf(),
        board.placed(moves).size == board.size,
        board.placed(moves).keys == board.keys,
    decreases moves.len(),
{
    if moves.len() > 0 {
        lemma_placed_wf(board, moves.drop_last());
        lemma_pushed_wf(
            board.placed(moves.drop_last()),
            moves.last().coordinates,
            moves.last().color,
        );
    }
}

/// Of every intersection exactly one holds: it is empty, its black bit is set,
/// or its white bit is set.
pub proof fn lemma_occupancy_exclusive(board: Board, index: int)
    requires
        board.wf(),
        0 <= index < board.cells(),
    ensures
        board.black_bits()[index] == board.black_occupied(index),
        board.white_bits()[index] == board.white_occupied(index),
        (board.grid[index] == Color::Empty) || board.black_occupied(index) || board.white_occupied(
            index,
        ),
        !(board.grid[index] == Color::Empty && board.black_occupied(index)),
        !(board.grid[index] == Color::Empty && board.white_occupied(index)),
        !(board.black_occupied(index) && board.white_occupied(index)),
{
}

/// A placement that does not write a stone over a stone keeps the carried hash
/// equal to the hash computed from the grid alone; so does a placement off the
/// board, which changes nothing.
pub proof fn lemma_push_keeps_hash(board: Board, coord: Coord, color: Color)
    requires
        board.wf(),
        board.hash_consistent(),
        !board.overwrites(coord, color),
    ensures
        board.pushed(coord, color).hash_consistent(),
{
    if board.inside(coord) {
        lemma_index_in_grid(board, coord);
        let index = board.index_of(coord);
        lemma_hash_of_update(board.keys, board.grid, index, color);
        lemma_xor_zero(board.full_hash());
        lemma_xor_zero(board.full_hash() ^ key_of(board.keys, index, board.grid[index]));
    }
}

/// Writing a stone over a stone lets the carried hash drift: it then differs
/// from the hash of the grid by exactly the key of the stone that was
/// overwritten.
pub proof fn lemma_overwrite_drifts(board: Board, coord: Coord, color: Color)
    requires
        board.wf(),
        board.hash_consistent(),
        board.overwrites(coord, color),
    ensures
        board.pushed(coord, color).hash == board.pushed(coord, color).full_hash()
            ^ key_of(board.keys, board.index_of(coord), board.color_at(coord)),
{
    lemma_index_in_grid(board, coord);
    let index = board.index_of(coord);
    let old_key = key_of(board.keys, index, board.grid[index]);
    let new_key = key_of(board.keys, index, color);
    let full = board.full_hash();
    lemma_hash_of_update(board.keys, board.grid, index, color);
    assert(((full ^ old_key) ^ new_key) ^ old_key == full ^ new_key) by (bit_vector);
}

/// Through any sequence of placements of which none writes a stone over a
/// stone, the carried hash equals the hash of the grid after each of them.
pub proof fn lemma_placed_keeps_hash(board: Board, moves: Seq<Stone>)
    requires
        board.wf(),
        board.hash_consistent(),
        board.clears_before_recoloring(moves),
    ensures
        forall|k: int|
            0 <= k <= moves.len() ==> (#[trigger] board.placed(moves.take(k))).hash_consistent(),
    decreases moves.len(),
{
    if moves.len() == 0 {
        assert forall|k: int| 0 <= k <= moves.len() implies (#[trigger] board.placed(
            moves.take(k),
        )).hash_consistent() by {
            assert(moves.take(k) =~= moves);
        }
    } else {
        let shorter = moves.drop_last();
        assert(board.clears_before_recoloring(shorter)) by {
            assert forall|k: int| 0 <= k < shorter.len() implies !(#[trigger] board.placed(
                shorter.take(k),
            )).overwrites(shorter[k].coordinates, shorter[k].color) by {
                assert(shorter.take(k) =~= moves.take(k));
            }
        }
        lemma_placed_keeps_hash(board, shorter);
        assert forall|k: int| 0 <= k <= moves.len() implies (#[trigger] board.placed(
            moves.take(k),
        )).hash_consistent() by {
            if k < moves.len() {
                assert(moves.take(k) =~= shorter.take(k));
            } else {
                let last = moves.len() - 1;
                assert(moves.take(k) =~= moves);
                assert(moves.take(last) =~= shorter);
                assert(shorter.take(last) =~= shorter);
                lemma_placed_wf(board, shorter);
                lemma_push_keeps_hash(
                    board.placed(shorter),
                    moves.last().coordinates,
                    moves.last().color,
                );
            }
        }
    }
}

/// Placing a stone on an empty intersection and then clearing that
/// intersection gives the board back as it was: grid, occupancy bits and hash.
pub proof fn lemma_clear_round_trip(board: Board, coord: Coord)
    requires
        board.wf(),
        board.inside(coord) ==> board.color_at(coord) == Color::Empty,
    ensures
        board.pushed(coord, Color::Black).pushed(coord, Color::Empty) == board,
        board.pushed(coord, Color::White).pushed(coord, Color::Empty) == board,
        board.pushed(coord, Color::Black).pushed(coord, Color::Empty).black_bits()
            == board.black_bits(),
        board.pushed(coord, Color::Black).pushed(coord, Color::Empty).white_bits()
            == board.white_bits(),
{
    if board.inside(coord) {
        lemma_index_in_grid(board, coord);
        let index = board.index_of(coord);
        let black = board.pushed(coord, Color::Black);
        let white = board.pushed(coord, Color::White);
        lemma_xor_cancel(board.hash, board.keys[2 * index]);
        lemma_xor_cancel(board.hash, board.keys[2 * index + 1]);
        assert(black.pushed(coord, Color::Empty).grid =~= board.grid);
        assert(white.pushed(coord, Color::Empty).grid =~= board.grid);
    }
}

/// Whether the coordinate lies in the first or the last row.
pub open spec fn on_outer_row(board: Board, coord: Coord) -> bool {
    coord.0 == 0 || coord.0 == board.size - 1
}

/// Whether the coordinate lies in the first or the last column.
pub open spec fn on_outer_column(board: Board, coord: Coord) -> bool {
    coord.1 == 0 || coord.1 == board.size - 1
}

/// On a board of three rows or more, a corner has two neighbors, any other
/// intersection of the border three, and an intersection off the border four.
pub proof fn lemma_neighbor_count(board: Board, coord: Coord)
    requires
        board.size >= 3,
        board.inside(coord),
    ensures
        on_outer_row(board, coord) && on_outer_column(board, coord) ==> board.neighbors(
            coord,
        ).len() == 2,
        on_outer_row(board, coord) != on_outer_column(board, coord) ==> board.neighbors(
            coord,
        ).len() == 3,
        !on_outer_row(board, coord) && !on_outer_column(board, coord) ==> board.neighbors(
            coord,
        ).len() == 4,
{
}

/// The empty board carries the hash zero, which is also the hash of its grid,
/// and has no stone on it.
pub proof fn lemma_empty_board(size: nat, keys: Seq<u64>)
    ensures
        Board::empty(size, keys).hash == 0,
        Board::empty(size, keys).hash_consistent(),
        Board::empty(size, keys).stones().len() == 0,
        forall|color: Color|
            color != Color::Empty ==> (#[trigger] Board::empty(size, keys).stones_by_color(
                color,
            )).len() == 0,
{
    let board = Board::empty(size, keys);
    lemma_hash_of_empty(board.keys, board.grid, board.grid.len());
    board.all_cells().lemma_all_neg_filter_empty(is_occupied());
    assert forall|color: Color| color != Color::Empty implies (#[trigger] board.stones_by_color(
        color,
    )).len() == 0 by {
        board.all_cells().lemma_all_neg_filter_empty(has_color(color));
    }
}

/// Where every intersection but the one at `coord` is empty, each neighbor of
/// `coord` is a liberty: a stone alone on the board has as many liberties as
/// neighbors.
pub proof fn lemma_lone_stone_liberties(board: Board, coord: Coord)
    requires
        board.wf(),
        board.inside(coord),
        forall|i: int|
            0 <= i < board.cells() && i != board.index_of(coord) ==> board.grid[i] == Color::Empty,
    ensures
        board.liberties(coord) == board.neighbors(coord),
        board.liberties(coord).len() == board.neighbors(coord).len(),
        board.neighbor_stones(coord).len() == 0,
{
    let neighbors = board.neighbors(coord);
    assert forall|k: int| 0 <= k < neighbors.len() implies (#[trigger] neighbors[k]).color
        == Color::Empty by {
        lemma_neighbors_are_cells(board, coord, k);
    }
    lemma_filter_all(neighbors, has_color(Color::Empty));
    neighbors.lemma_all_neg_filter_empty(is_occupied());
}

/// A filter that every element passes changes nothing.
proof fn lemma_filter_all(stones: Seq<Stone>, pred: spec_fn(Stone) -> bool)
    requires
        forall|k: int| 0 <= k < stones.len() ==> pred(#[trigger] stones[k]),
    ensures
        stones.filter(pred) == stones,
    decreases stones.len(),
{
    reveal(Seq::filter);
    if stones.len() > 0 {
        lemma_filter_all(stones.drop_last(), pred);
        assert(stones.drop_last().push(stones.last()) =~= stones);
    }
}

/// Each neighbor of an intersection is another intersection of the board, one
/// step away in one direction, with the color that the grid holds there.
pub proof fn lemma_neighbors_are_cells(board: Board, coord: Coord, k: int)
    requires
        board.wf(),
        board.inside(coord),
        0 <= k < board.neighbors(coord).len(),
    ensures
        board.inside(board.neighbors(coord)[k].coordinates),
        board.index_of(board.neighbors(coord)[k].coordinates) != board.index_of(coord),
        0 <= board.index_of(board.neighbors(coord)[k].coordinates) < board.cells(),
        board.neighbors(coord)[k].color == board.color_at(board.neighbors(coord)[k].coordinates),
        ({
            let other = board.neighbors(coord)[k].coordinates;
            (other.0 == coord.0 && (other.1 == coord.1 + 1 || other.1 + 1 == coord.1)) || (other.1
                == coord.1 && (other.0 == coord.0 + 1 || other.0 + 1 == coord.0))
        }),
{
    let other = board.neighbors(coord)[k].coordinates;
    assert(board.inside(other) && ((other.0 == coord.0 && (other.1 == coord.1 + 1 || other.1 + 1
        == coord.1)) || (other.1 == coord.1 && (other.0 == coord.0 + 1 || other.0 + 1
        == coord.0))));
    lemma_index_in_grid(board, other);
    assert(board.index_of(other) != board.index_of(coord)) by (nonlinear_arith)
        requires
            board.inside(other),
            board.inside(coord),
            (other.0 == coord.0 && (other.1 == coord.1 + 1 || other.1 + 1 == coord.1)) || (other.1
                == coord.1 && (other.0 == coord.0 + 1 || other.0 + 1 == coord.0)),
    ;
}

} // verus!
