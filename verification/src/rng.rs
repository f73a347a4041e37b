//! The pseudo-random numbers of the search: a xoshiro256++ generator with a
//! fixed seed, and draws scaled to a range.
use vstd::prelude::*;
use rand_xoshiro::Xoshiro256PlusPlus;
use rand_xoshiro::rand_core::{RngCore, SeedableRng};

verus! {

#[verifier::external_type_specification]
#[verifier::external_body]
pub struct ExXoshiro256PlusPlus(Xoshiro256PlusPlus);

/// Calls `Xoshiro256PlusPlus::from_seed` (of `rand_core::SeedableRng`).
/// Nothing is claimed of the generator beyond its existence.
#[verifier::external_body]
fn generator_from_seed(seed: [u8; 32]) -> Xoshiro256PlusPlus {
    Xoshiro256PlusPlus::from_seed(seed)
}

/// Calls `Xoshiro256PlusPlus::next_u64` (of `rand_core::RngCore`), which
/// advances the generator. The draw depends on the generator's state, of
/// which nothing is stated: any `u64` may come back.
#[verifier::external_body]
fn generator_next_u64(g: &mut Xoshiro256PlusPlus) -> u64 {
    g.next_u64()
}

/// `min` plus the draw reduced modulo the size of the range.
pub open spec fn scaled(draw: u64, min: usize, max: usize) -> usize {
    (min + (draw as usize) % ((max - min) as usize)) as usize
}

/// Maps a draw into `min..max`.
pub fn scale_to_range(draw: u64, min: usize, max: usize) -> (r: usize)
    requires
        min < max,
    ensures
        r == scaled(draw, min, max),
        min <= r < max,
{
    let range = max - min;
    let d = draw as usize;
    proof {
        assert(d % range < range) by (nonlinear_arith)
            requires
                range > 0,
        ;
    }
    min + d % range
}

/// The generator used to break ties and pick fallback moves.
pub struct MoveRng {
    generator: Xoshiro256PlusPlus,
}

impl MoveRng {
    /// A generator seeded with every seed byte set to 1, so that searches
    /// repeat from run to run.
    pub fn new() -> (r: Self) {
        MoveRng { generator: generator_from_seed([1u8; 32]) }
    }

    /// A generator from the given seed.
    pub fn from_seed(seed: [u8; 32]) -> (r: Self) {
        MoveRng { generator: generator_from_seed(seed) }
    }

    /// The next 64 random bits.
    pub fn next_u64(&mut self) -> (d: u64) {
        generator_next_u64(&mut self.generator)
    }

    /// A number in `min..max`: the next draw scaled by `scale_to_range`.
    pub fn random_range(&mut self, min: usize, max: usize) -> (r: usize)
        requires
            min < max,
        ensures
            min <= r < max,
            exists|d: u64| r == scaled(d, min, max),
    {
        let draw = generator_next_u64(&mut self.generator);
        scale_to_range(draw, min, max)
    }
}

} // verus!
