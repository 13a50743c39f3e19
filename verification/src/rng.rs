//! The pseudo-random sources the simulation draws from.
//!
//! Everything in this file is trusted: the generators live in the `rand` and
//! `rand_chacha` crates, and the contracts below state what their
//! documentation promises without proof.

use rand::Rng;
use rand::SeedableRng;
use rand_chacha::ChaCha8Rng;
use vstd::prelude::*;

verus! {

/// `rand_chacha::ChaCha8Rng`, carried through verified code as an opaque value.
#[verifier::external_type_specification]
#[verifier::external_body]
pub struct ExChaCha8Rng(ChaCha8Rng);

/// The internal state of a generator: everything that decides what it will
/// produce from now on.
pub uninterp spec fn rng_state(rng: ChaCha8Rng) -> Seq<u8>;

/// The state in which `SeedableRng::seed_from_u64` leaves a fresh
/// `ChaCha8Rng` for a given seed.
pub uninterp spec fn seeded_state(seed: u64) -> Seq<u8>;

/// What `Rng::random_range(low..=high)` does to a `ChaCha8Rng` in a given
/// state: the value it returns, and the state it leaves behind.
pub uninterp spec fn range_draw(state: Seq<u8>, low: u32, high: u32) -> (u32, Seq<u8>);

/// Calls `ChaCha8Rng::seed_from_u64`. The crate documents the generator as
/// reproducible: the same seed gives the same state on every run and machine.
#[verifier::external_body]
pub(crate) fn seeded_rng(seed: u64) -> (rng: ChaCha8Rng)
    ensures
        rng_state(rng) == seeded_state(seed),
{
    ChaCha8Rng::seed_from_u64(seed)
}

/// Calls `Rng::random_range(low..=high)` on a `ChaCha8Rng`. The value and the
/// state afterwards depend on the state before and on the range alone, and
/// the value lies in the range. The call panics on an empty range, which the
/// precondition excludes.
#[verifier::external_body]
pub(crate) fn draw_in_range(rng: &mut ChaCha8Rng, low: u32, high: u32) -> (value: u32)
    requires
        low <= high,
    ensures
        value == range_draw(rng_state(*old(rng)), low, high).0,
        rng_state(*final(rng)) == range_draw(rng_state(*old(rng)), low, high).1,
        low <= value <= high,
{
    rng.random_range(low..=high)
}

/// Calls `rand::random_range(0..len)` on the thread-local generator. Nothing
/// is known of the value but that it is a valid index below `len`. The call
/// panics on an empty range, which the precondition excludes.
#[verifier::external_body]
pub(crate) fn random_index(len: usize) -> (index: usize)
    requires
        len > 0,
    ensures
        index < len,
{
    rand::random_range(0..len)
}

} // verus!
