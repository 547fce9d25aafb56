//! Deterministic pseudo-timestamp derivation.
//!
//! Trace events carry a 64-bit value standing in for a wall-clock timestamp.
//! It is a pure function of the run's seed and the event's sequence number:
//! the two are folded through a fixed odd multiplier into a mixing seed, and
//! one value is drawn from a seeded pseudo-random generator. Runs with the
//! same seed therefore produce exactly the same timestamps.

use vstd::prelude::*;

verus! {

/// Fixed multiplier folding the sequence number into the per-event mixing seed.
pub const PRIME_MULTIPLIER: u64 = 314159;

/// The first 64-bit value drawn from rand's `StdRng` after seeding it with
/// `mixed`. A function of `mixed` alone: the generator is deterministic.
pub uninterp spec fn rng_first_u64(mixed: u64) -> u64;

/// The mixing step: `seed` times (`PRIME_MULTIPLIER` + `seq`), wrapping.
pub open spec fn spec_mix(seed: u64, seq: u64) -> u64
    recommends
        PRIME_MULTIPLIER + seq <= u64::MAX,
{
    seed.wrapping_mul((PRIME_MULTIPLIER + seq) as u64)
}

/// The deterministic pseudo-timestamp for event `seq` of a run seeded with
/// `seed`.
pub open spec fn spec_ts(seed: u64, seq: u64) -> u64 {
    rng_first_u64(spec_mix(seed, seq))
}

/// Relies on `rand::rngs::StdRng`, `SeedableRng::seed_from_u64` and
/// `Rng::gen`: seeding initializes the generator from the seed value alone,
/// and the first draw is a function of the generator state, so the result
/// depends on `mixed` alone, on every machine running this crate's pinned
/// generator algorithm.
#[verifier::external_body]
fn draw_first_u64(mixed: u64) -> (r: u64)
    ensures
        r == rng_first_u64(mixed),
{
    let mut rng = <rand::rngs::StdRng as rand::SeedableRng>::seed_from_u64(mixed);
    rand::Rng::gen(&mut rng)
}

/// Derives the deterministic pseudo-timestamp for `(seed, seq)`.
pub fn ts(seed: u64, seq: u64) -> (r: u64)
    requires
        PRIME_MULTIPLIER + seq <= u64::MAX,
    ensures
        r == spec_ts(seed, seq),
{
    draw_first_u64(seed.wrapping_mul(PRIME_MULTIPLIER + seq))
}

} // verus!
