//! Random numbers, drawn from `rand`'s standard generator.

use rand::Rng;
use rand::SeedableRng;
use vstd::prelude::*;

verus! {

/// `rand::rngs::StdRng`, the generator itself. Verus sees nothing inside it.
#[verifier::external_type_specification]
#[verifier::external_body]
pub struct ExStdRng(rand::rngs::StdRng);

/// A source of random numbers.
pub struct Random {
    random: rand::rngs::StdRng,
}

impl Random {
    /// Calls `Rng::gen` for a `u32`. Any value may come back.
    #[verifier::external_body]
    pub fn gen_u32(&mut self) -> u32 {
        self.random.gen()
    }

    /// Calls `Rng::gen` for a `u64`. Any value may come back.
    #[verifier::external_body]
    pub fn gen_u64(&mut self) -> u64 {
        self.random.gen()
    }

    /// Calls `Rng::gen` for a `u128`. Any value may come back.
    #[verifier::external_body]
    pub(crate) fn gen_u128(&mut self) -> u128 {
        self.random.gen()
    }

    /// Calls `Rng::gen` for a `u8`. Any value may come back.
    #[verifier::external_body]
    pub fn gen_u8(&mut self) -> u8 {
        self.random.gen()
    }

    /// A random number between `min` and `max`, both included.
    pub fn gen_u32_in_range(&mut self, min: u32, max: u32) -> (r: u32)
        requires
            min <= max,
        ensures
            min <= r <= max,
    {
        let draw: u32 = self.gen_u32();
        spread_u32(draw, min, max)
    }

    /// A random number between `min` and `max`, both included.
    pub fn gen_u8_in_range(&mut self, min: u8, max: u8) -> (r: u8)
        requires
            min <= max,
        ensures
            min <= r <= max,
    {
        let draw: u8 = self.gen_u8();
        spread_u8(draw, min, max)
    }

    /// Calls `StdRng::from_entropy`, which seeds the generator from the
    /// operating system and panics if the system has no entropy to give.
    #[verifier::external_body]
    pub fn new() -> Random {
        Random { random: rand::rngs::StdRng::from_entropy() }
    }
}

/// The number between `min` and `max` that a draw gives: the draw, taken
/// modulo the count of the numbers from `min` to `max`, and counted on from `min`.
pub open spec fn spread(draw: int, min: int, max: int) -> int {
    min + draw % (max - min + 1)
}

/// The number between `min` and `max`, both included, that the draw `draw` gives.
pub fn spread_u32(draw: u32, min: u32, max: u32) -> (r: u32)
    requires
        min <= max,
    ensures
        r == spread(draw as int, min as int, max as int),
        min <= r <= max,
{
    let span: u32 = max - min;
    if span == u32::MAX {
        draw
    } else {
        min + draw % (span + 1)
    }
}

/// The number between `min` and `max`, both included, that the draw `draw` gives.
pub fn spread_u8(draw: u8, min: u8, max: u8) -> (r: u8)
    requires
        min <= max,
    ensures
        r == spread(draw as int, min as int, max as int),
        min <= r <= max,
{
    let span: u8 = max - min;
    if span == u8::MAX {
        draw
    } else {
        min + draw % (span + 1)
    }
}

} // verus!
