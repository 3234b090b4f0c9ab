//! The content hash of a grid: the XOR of one key for each occupied intersection.

use vstd::prelude::*;
use crate::stones::Color;

verus! {

/// The key of the pair (intersection `index`, `color`) in a table that holds
/// two keys for each intersection, the black one first. An empty intersection
/// has no key and adds nothing to a hash.
pub open spec fn key_of(keys: Seq<u64>, index: int, color: Color) -> u64 {
    match color {
        Color::Empty => 0,
        Color::Black => keys[2 * index],
        Color::White => keys[2 * index + 1],
    }
}

/// The XOR of the keys of the first `count` intersections of `grid`.
pub open spec fn hash_of_prefix(keys: Seq<u64>, grid: Seq<Color>, count: nat) -> u64
    decreases count,
{
    if count == 0 {
        0
    } else {
        hash_of_prefix(keys, grid, (count - 1) as nat) ^ key_of(
            keys,
            count - 1,
            grid[count - 1],
        )
    }
}

/// The hash of a whole grid, computed from nothing but its content.
pub open spec fn hash_of(keys: Seq<u64>, grid: Seq<Color>) -> u64 {
    hash_of_prefix(keys, grid, grid.len())
}

/// XOR with zero changes nothing, and a value cancels itself.
pub proof fn lemma_xor_zero(a: u64)
    ensures
        a ^ 0 == a,
        0 ^ a == a,
        a ^ a == 0,
{
    assert(a ^ 0 == a && 0 ^ a == a && a ^ a == 0) by (bit_vector);
}

/// XOR-ing the same value in twice gives the first value back.
pub proof fn lemma_xor_cancel(a: u64, b: u64)
    ensures
        (a ^ b) ^ b == a,
{
    assert((a ^ b) ^ b == a) by (bit_vector);
}

/// The order in which two values are XOR-ed in does not matter.
proof fn lemma_xor_swap(a: u64, b: u64, c: u64)
    ensures
        (a ^ b) ^ c == (a ^ c) ^ b,
{
    assert((a ^ b) ^ c == (a ^ c) ^ b) by (bit_vector);
}

/// A prefix that does not reach a cell does not see a change of that cell; one
/// that reaches it loses the key of the old content and gains that of the new.
proof fn lemma_hash_of_prefix_update(
    keys: Seq<u64>,
    grid: Seq<Color>,
    index: int,
    color: Color,
    count: nat,
)
    requires
        0 <= index < grid.len(),
        count <= grid.len(),
    ensures
        hash_of_prefix(keys, grid.update(index, color), count) == if index < count {
            (hash_of_prefix(keys, grid, count) ^ key_of(keys, index, grid[index])) ^ key_of(
                keys,
                index,
                color,
            )
        } else {
            hash_of_prefix(keys, grid, count)
        },
    decreases count,
{
    if count > 0 {
        let before = (count - 1) as nat;
        lemma_hash_of_prefix_update(keys, grid, index, color, before);
        let rest = hash_of_prefix(keys, grid, before);
        let old_key = key_of(keys, index, grid[index]);
        let new_key = key_of(keys, index, color);
        if index == before {
            lemma_xor_cancel(rest, old_key);
        } else if index < before {
            let last = key_of(keys, before as int, grid[before as int]);
            lemma_xor_swap(rest ^ old_key, new_key, last);
            lemma_xor_swap(rest, old_key, last);
        }
    }
}

/// Changing one cell of a grid changes its hash by the key of what the cell
/// held and the key of what it holds now.
pub proof fn lemma_hash_of_update(keys: Seq<u64>, grid: Seq<Color>, index: int, color: Color)
    requires
        0 <= index < grid.len(),
    ensures
        hash_of(keys, grid.update(index, color)) == (hash_of(keys, grid) ^ key_of(
            keys,
            index,
            grid[index],
        )) ^ key_of(keys, index, color),
{
    lemma_hash_of_prefix_update(keys, grid, index, color, grid.len());
}

/// A grid with no stone on it hashes to zero.
pub proof fn lemma_hash_of_empty(keys: Seq<u64>, grid: Seq<Color>, count: nat)
    requires
        count <= grid.len(),
        forall|i: int| 0 <= i < grid.len() ==> grid[i] == Color::Empty,
    ensures
        hash_of_prefix(keys, grid, count) == 0,
    decreases count,
{
    if count > 0 {
        lemma_hash_of_empty(keys, grid, (count - 1) as nat);
        lemma_xor_zero(0);
    }
}

} // verus!
