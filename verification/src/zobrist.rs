//! The table of keys that a board hashes with.

use vstd::prelude::*;
use crate::hashing::key_of;
use crate::keystream::{generator, next_key, seeded_stream, upcoming};
use crate::stones::{Color, Coord};

verus! {

/// The seed that every table is drawn from, so that two tables of one
/// dimension hold the same keys.
pub const SEED: u64 = 172_147_124;

/// The keys of the table of dimension `n`: the first `2 * n * n` values of the
/// seeded generator, in the order in which it hands them out.
pub open spec fn zobrist_keys(n: nat) -> Seq<u64> {
    Seq::new(2 * (n * n), |k: int| seeded_stream(SEED)[k as nat])
}

/// One key for each pair of an intersection of an `n` by `n` grid and a color
/// of stone.
#[derive(Debug)]
pub struct ZobristTable {
    hashes: Vec<u64>,
    n: usize,
}

impl ZobristTable {
    /// The keys, two for each intersection in row-major order: the key of a
    /// black stone, then that of a white one.
    pub closed spec fn keys(&self) -> Seq<u64> {
        self.hashes@
    }

    /// The number of rows, and of columns, that the table covers.
    pub closed spec fn dimension(&self) -> nat {
        self.n as nat
    }

    /// The table holds exactly two keys for each intersection.
    pub open spec fn wf(&self) -> bool {
        self.keys().len() == 2 * (self.dimension() * self.dimension())
    }

    /// The number of rows, and of columns, that the table covers.
    pub fn n(&self) -> (n: usize)
        ensures
            n == self.dimension(),
    {
        self.n
    }

    /// A well-formed table has a length that fits the machine.
    pub proof fn lemma_fits(&self)
        requires
            self.wf(),
        ensures
            2 * (self.dimension() * self.dimension()) <= usize::MAX,
    {
        assert(self.hashes.len() == self.hashes@.len());
    }

    /// The table of dimension `n` that holds the given keys, if they are as
    /// many as such a table needs.
    pub fn from_keys(n: usize, keys: Vec<u64>) -> (table: Option<ZobristTable>)
        ensures
            table is Some <==> keys@.len() == 2 * (n * n),
            table matches Some(t) ==> t.wf() && t.dimension() == n && t.keys() == keys@,
    {
        let given = keys.len();
        match n.checked_mul(n) {
            Some(cells) => match cells.checked_mul(2) {
                Some(total) => {
                    if given == total {
                        Some(ZobristTable { hashes: keys, n })
                    } else {
                        None
                    }
                },
                None => None,
            },
            None => None,
        }
    }

    /// The table of dimension `n`, drawn from the generator seeded with `SEED`.
    pub fn new(n: usize) -> (table: ZobristTable)
        requires
            2 * (n * n) <= usize::MAX,
        ensures
            table.wf(),
            table.dimension() == n,
            table.keys() == zobrist_keys(n as nat),
    {
        let cells: usize = n * n;
        let mut rng = generator(SEED);
        let mut hashes: Vec<u64> = Vec::new();
        let mut i: usize = 0;
        while i < cells
            invariant
                i <= cells,
                2 * cells <= usize::MAX,
                hashes@.len() == 2 * i,
                forall|k: int| 0 <= k < 2 * i ==> hashes@[k] == seeded_stream(SEED)[k as nat],
                forall|k: nat| #[trigger] upcoming(rng)[k] == seeded_stream(SEED)[(k + 2 * i) as nat],
            decreases cells - i,
        {
            let ghost before = rng;
            let black = next_key(&mut rng);
            let ghost between = rng;
            let white = next_key(&mut rng);
            hashes.push(black);
            hashes.push(white);
            proof {
                assert(white == upcoming(between)[0]);
                assert(upcoming(between)[0] == upcoming(before)[1]);
                assert forall|k: nat| #[trigger] upcoming(rng)[k] == seeded_stream(SEED)[(k + 2 * (i
                    + 1)) as nat] by {
                    assert(upcoming(rng)[k] == upcoming(between)[(k + 1) as nat]);
                    assert(upcoming(between)[(k + 1) as nat] == upcoming(before)[(k + 2) as nat]);
                }
            }
            i += 1;
        }
        ZobristTable { hashes, n }
    }

    /// The key of a stone of `color` on the intersection at `coord`.
    pub fn key(&self, coord: Coord, color: Color) -> (key: u64)
        requires
            self.wf(),
            coord.0 < self.dimension(),
            coord.1 < self.dimension(),
            color != Color::Empty,
        ensures
            key == key_of(self.keys(), coord.0 * self.dimension() + coord.1, color),
    {
        proof {
            assert(self.hashes.len() == self.hashes@.len());
            assert(0 <= coord.0 * self.n && coord.0 * self.n + self.n <= self.n * self.n)
                by (nonlinear_arith)
                requires
                    coord.0 < self.n,
            ;
        }
        let index = coord.0 * self.n + coord.1;
        match color {
            Color::White => self.hashes[2 * index + 1],
            _ => self.hashes[2 * index],
        }
    }
}

impl Clone for ZobristTable {
    /// A table of its own with the same keys.
    fn clone(&self) -> (copy: ZobristTable)
        ensures
            copy.keys() == self.keys(),
            copy.dimension() == self.dimension(),
    {
        ZobristTable { hashes: self.hashes.clone(), n: self.n }
    }
}

} // verus!
