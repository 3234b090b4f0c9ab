//! The seeded pseudo-random generator that the hash keys are drawn from.
//!
//! Nothing in this file is proved: it states what the generator of the
//! `rand_xorshift` crate is taken to do.

use vstd::prelude::*;
use rand::RngCore;
use rand::SeedableRng;
use rand_xorshift::XorShiftRng;

verus! {

/// The Xorshift generator of `rand_xorshift`. Its state is four words that
/// this library never looks into.
#[verifier::external_type_specification]
#[verifier::external_body]
pub struct ExXorShiftRng(XorShiftRng);

/// The values that a generator hands out from its present state on: the value
/// at `k` is what the call number `k + 1` of `next_u64` returns. The state
/// alone decides them.
pub uninterp spec fn upcoming(rng: XorShiftRng) -> Map<nat, u64>;

/// The values that the generator made by `seed_from_u64(seed)` hands out, in
/// order. The seed is spread over the state by fixed integer arithmetic that
/// lays its bytes out in one byte order on every machine, so the seed alone
/// decides them.
pub uninterp spec fn seeded_stream(seed: u64) -> Map<nat, u64>;

/// `<XorShiftRng as SeedableRng>::seed_from_u64`: it returns the generator
/// whose values are those of the seed. It does not panic on any seed.
#[verifier::external_body]
pub(crate) fn generator(seed: u64) -> (rng: XorShiftRng)
    ensures
        upcoming(rng) == seeded_stream(seed),
{
    XorShiftRng::seed_from_u64(seed)
}

/// `<XorShiftRng as RngCore>::next_u64`: it returns the first of the upcoming
/// values and leaves the generator with the rest of them. It does not panic.
#[verifier::external_body]
pub(crate) fn next_key(rng: &mut XorShiftRng) -> (key: u64)
    ensures
        key == upcoming(*old(rng))[0],
        forall|k: nat| #[trigger] upcoming(*final(rng))[k] == upcoming(*old(rng))[(k + 1) as nat],
{
    rng.next_u64()
}

} // verus!
