//! Deterministic random number generator.
//!
//! Uses xoshiro128++ for fast, deterministic random numbers. The
//! generator is seeded once at simulation start and produces identical
//! sequences given the same seed; no other component may introduce
//! non-deterministic randomness.
//!
//! The generator state itself lives in the `rand_xoshiro` crate and is
//! opaque here; it is modelled by the pair (seed, number of draws made
//! so far). `xoshiro_draw(seed, index)` names the `index`-th draw of a
//! generator freshly seeded with `seed` — a pure function of the two,
//! since seeding and stepping are integer arithmetic on the seed alone,
//! identical on every platform.

use vstd::prelude::*;

verus! {

#[verifier::external_type_specification]
#[verifier::external_body]
pub struct ExXoshiro128PlusPlus(rand_xoshiro::Xoshiro128PlusPlus);

/// The `index`-th value of the u64 draw sequence of a xoshiro128++
/// generator seeded from `seed`, counting from 0.
pub uninterp spec fn xoshiro_draw(seed: u64, index: int) -> u64;

/// Deterministic RNG for the simulation.
pub struct SimRng {
    rng: rand_xoshiro::Xoshiro128PlusPlus,
    seed: u64,
    drawn: Ghost<int>,
}

/// Relies on `rand_xoshiro::Xoshiro128PlusPlus::seed_from_u64`: the
/// initial generator state is computed from the seed alone (SplitMix64
/// expansion), so a fresh generator stands at position 0 of the draw
/// sequence that `xoshiro_draw(seed, _)` names. This module pairs the
/// returned generator only with that same seed and position 0.
#[verifier::external_body]
fn xoshiro_seeded(seed: u64) -> rand_xoshiro::Xoshiro128PlusPlus {
    <rand_xoshiro::Xoshiro128PlusPlus as rand_core::SeedableRng>::seed_from_u64(seed)
}

/// Relies on `rand_core::Rng::next_u64` for `Xoshiro128PlusPlus`: each
/// draw is computed from the current generator state alone and advances
/// it one step, so the value returned is the draw at the current
/// position of the seed's sequence.
#[verifier::external_body]
fn xoshiro_next(rng: &mut SimRng) -> (r: u64)
    ensures
        final(rng).seed == old(rng).seed,
        final(rng).drawn@ == old(rng).drawn@ + 1,
        r == xoshiro_draw(old(rng).seed, old(rng).drawn@),
{
    rand_core::Rng::next_u64(&mut rng.rng)
}

impl SimRng {
    /// The seed this generator was (last) initialized with.
    pub closed spec fn seed_spec(&self) -> u64 {
        self.seed
    }

    /// How many values have been drawn since the last (re)seeding.
    pub closed spec fn position(&self) -> int {
        self.drawn@
    }

    pub fn new(seed: u64) -> (r: Self)
        ensures
            r.seed_spec() == seed,
            r.position() == 0,
    {
        SimRng { rng: xoshiro_seeded(seed), seed, drawn: Ghost(0int) }
    }

    /// Reset the RNG to its initial state: the draw sequence starts
    /// over from the beginning.
    pub fn reset(&mut self)
        ensures
            final(self).seed_spec() == old(self).seed_spec(),
            final(self).position() == 0,
    {
        *self = SimRng::new(self.seed);
    }

    /// Get the seed used to initialize this RNG.
    pub fn seed(&self) -> (r: u64)
        ensures
            r == self.seed_spec(),
    {
        self.seed
    }

    /// Get the current seed (for saving game state).
    pub fn current_seed(&self) -> (r: u64)
        ensures
            r == self.seed_spec(),
    {
        self.seed
    }

    /// Set a new seed and reinitialize the RNG.
    pub fn set_seed(&mut self, seed: u64)
        ensures
            final(self).seed_spec() == seed,
            final(self).position() == 0,
    {
        *self = SimRng::new(seed);
    }

    /// Generate the next random u64: the draw at the current position
    /// of the seed's sequence.
    pub fn next_u64(&mut self) -> (r: u64)
        ensures
            final(self).seed_spec() == old(self).seed_spec(),
            final(self).position() == old(self).position() + 1,
            r == xoshiro_draw(old(self).seed_spec(), old(self).position()),
    {
        xoshiro_next(self)
    }
}

impl Default for SimRng {
    fn default() -> (r: Self)
        ensures
            r.seed_spec() == 12345,
            r.position() == 0,
    {
        SimRng::new(12345)
    }
}

/// Determinism: two generators seeded with the same value stand on the
/// same draw sequence, so at equal positions they produce equal values.
pub proof fn lemma_rng_determinism(a: SimRng, b: SimRng)
    requires
        a.seed_spec() == b.seed_spec(),
        a.position() == b.position(),
    ensures
        xoshiro_draw(a.seed_spec(), a.position()) == xoshiro_draw(b.seed_spec(), b.position()),
{
}

/// Reset determinism: a generator that was reset has returned to
/// position 0 of the same seed's sequence, so it reproduces its
/// original sequence draw for draw.
pub proof fn lemma_rng_reset_replays(fresh: SimRng, reset: SimRng, k: int)
    requires
        fresh.seed_spec() == reset.seed_spec(),
        fresh.position() == 0,
        reset.position() == 0,
    ensures
        xoshiro_draw(fresh.seed_spec(), fresh.position() + k) == xoshiro_draw(
            reset.seed_spec(),
            reset.position() + k,
        ),
{
}

} // verus!
