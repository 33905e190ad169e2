//! Randomness for genome generation and breeding.
//!
//! The pseudo-random generator is rand's `StdRng`, seeded explicitly so a run
//! can be replayed.  Every use in the library goes through `draw_in_range`;
//! nothing downstream depends on more than the sample lying in its range.

use vstd::prelude::*;

verus! {

/// Declares rand's `StdRng` so it can stand in signatures; the generator is
/// opaque to the verifier and all draws go through the wrappers below.
#[verifier::external_type_specification]
#[verifier::external_body]
pub struct ExStdRng(rand::rngs::StdRng);

/// Relies on rand's `StdRng::seed_from_u64` (`SeedableRng`): it builds a
/// generator from a 64-bit seed.  Nothing is promised of the samples drawn
/// from the result.
#[verifier::external_body]
pub fn seed_rng(seed: u64) -> (r: rand::rngs::StdRng) {
    <rand::rngs::StdRng as rand::SeedableRng>::seed_from_u64(seed)
}

/// Relies on rand's `Rng::random_range` on the inclusive range `lo..=hi`: the
/// sample lies within the range, and the call panics only on an empty range,
/// which `lo <= hi` rules out.
#[verifier::external_body]
pub fn draw_in_range(rng: &mut rand::rngs::StdRng, lo: i64, hi: i64) -> (r: i64)
    requires
        lo <= hi,
    ensures
        lo <= r <= hi,
{
    rand::Rng::random_range(rng, lo..=hi)
}

/// A uniform index below `n`.
pub fn draw_index(rng: &mut rand::rngs::StdRng, n: usize) -> (r: usize)
    requires
        1 <= n <= 1_000_000_000,
    ensures
        r < n,
{
    let v = draw_in_range(rng, 0, n as i64 - 1);
    v as usize
}

/// A probability sample on the milli scale: uniform in `[0, 999]`.  An event
/// of probability `p` milli occurs when the sample is below `p`.
pub fn draw_milli(rng: &mut rand::rngs::StdRng) -> (r: i64)
    ensures
        0 <= r <= 999,
{
    draw_in_range(rng, 0, 999)
}

/// A fair coin.
pub fn draw_bool(rng: &mut rand::rngs::StdRng) -> bool {
    draw_in_range(rng, 0, 1) == 1
}

} // verus!
