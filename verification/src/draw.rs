//! Choosing a position in the word list from a seed.

use rand::Rng;
use rand::SeedableRng;
use rand_chacha::ChaCha8Rng;
use vstd::prelude::*;

verus! {

/// The position that a ChaCha generator with eight rounds, freshly seeded
/// with `seed`, draws first from the range `0..len`.
pub uninterp spec fn seeded_index(seed: u64, len: nat) -> nat;

/// Seeds a `ChaCha8Rng` through `SeedableRng::seed_from_u64` and draws one
/// value from `0..len` with `Rng::gen_range`.
///
/// Not proved, taken from the two crates: `gen_range` hands back a value
/// inside the range it was given, and panics on an empty range, which
/// `len > 0` rules out. A generator made from a seed reads nothing but that
/// seed, and the draw reads nothing but the generator and the range, so the
/// value drawn depends on `seed` and `len` alone. The range is one of `u64`,
/// for which the draw is the same on every target; on a target with 64-bit
/// addresses it is also what a range of `usize` draws.
#[verifier::external_body]
fn first_draw(seed: u64, len: u64) -> (index: u64)
    requires
        len > 0,
    ensures
        index as nat == seeded_index(seed, len as nat),
        index < len,
{
    ChaCha8Rng::seed_from_u64(seed).gen_range(0..len)
}

/// Draws the position of the word to play from a list of `len` words, or
/// nothing from an empty list.
pub fn draw(seed: u64, len: usize) -> (index: Option<usize>)
    ensures
        len == 0 <==> index is None,
        index matches Some(i) ==> i < len && i as nat == seeded_index(seed, len as nat),
{
    if len == 0 {
        None
    } else {
        let i = first_draw(seed, len as u64);
        Some(i as usize)
    }
}

} // verus!
