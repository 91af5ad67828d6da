//! The seeded pseudorandom generator behind every stochastic decision.
//!
//! The generator is SplitMix64: the state advances by a fixed odd increment,
//! and the value drawn is a bijective mix of the new state. Each draw below
//! consumes exactly one step, so the state after `k` draws does not depend on
//! which kinds of draw were made.

use vstd::prelude::*;
use crate::cell::AMOUNT_ONE;

verus! {

/// The increment added to the state at each step.
pub const GAMMA: u64 = 0x9E37_79B9_7F4A_7C15;

/// First multiplier of the output mix.
pub const MIX_A: u64 = 0xBF58_476D_1CE4_E5B9;

/// Second multiplier of the output mix.
pub const MIX_B: u64 = 0x94D0_49BB_1331_11EB;

/// The state that follows `state`.
pub open spec fn next_state(state: u64) -> u64 {
    state.wrapping_add(GAMMA)
}

/// The output mix applied to a state.
pub open spec fn mix(z: u64) -> u64 {
    let a: u64 = (z ^ (z >> 30)).wrapping_mul(MIX_A);
    let b: u64 = (a ^ (a >> 27)).wrapping_mul(MIX_B);
    b ^ (b >> 31)
}

/// The 64-bit value drawn by a generator that is in `state`.
pub open spec fn draw_u64(state: u64) -> u64 {
    mix(next_state(state))
}

/// The fraction drawn from `state`, in millionths: a value in `[0, AMOUNT_ONE)`.
pub open spec fn draw_fraction(state: u64) -> u32 {
    (draw_u64(state) % (AMOUNT_ONE as u64)) as u32
}

/// The integer of `[low, high)` drawn from `state`.
pub open spec fn draw_in_range(state: u64, low: u32, high: u32) -> u32
    recommends
        low < high,
{
    (low + draw_u64(state) % ((high - low) as u64)) as u32
}

/// The coin drawn from `state`: true with probability `chance` millionths.
pub open spec fn draw_bool(state: u64, chance: u32) -> bool {
    draw_fraction(state) < chance
}

/// A deterministic generator: equal seeds and equal sequences of draws give
/// equal sequences of values.
#[derive(Clone, Copy, Debug)]
pub struct RandomSource {
    state: u64,
}

impl View for RandomSource {
    type V = u64;

    closed spec fn view(&self) -> u64 {
        self.state
    }
}

impl RandomSource {
    /// A generator whose state is the seed itself.
    pub fn new(seed: u64) -> (r: RandomSource)
        ensures
            r@ == seed,
    {
        RandomSource { state: seed }
    }

    /// Draws 64 bits.
    pub fn next_u64(&mut self) -> (r: u64)
        ensures
            r == draw_u64(old(self)@),
            final(self)@ == next_state(old(self)@),
    {
        self.state = self.state.wrapping_add(GAMMA);
        let z: u64 = self.state;
        let a: u64 = (z ^ (z >> 30)).wrapping_mul(MIX_A);
        let b: u64 = (a ^ (a >> 27)).wrapping_mul(MIX_B);
        b ^ (b >> 31)
    }

    /// Draws a fraction of `[0, 1)`, in millionths.
    pub fn next_fraction(&mut self) -> (r: u32)
        ensures
            r == draw_fraction(old(self)@),
            r < AMOUNT_ONE,
            final(self)@ == next_state(old(self)@),
    {
        let bits: u64 = self.next_u64();
        (bits % (AMOUNT_ONE as u64)) as u32
    }

    /// Draws an integer of `[low, high)`.
    pub fn next_in_range(&mut self, low: u32, high: u32) -> (r: u32)
        requires
            low < high,
        ensures
            r == draw_in_range(old(self)@, low, high),
            low <= r < high,
            final(self)@ == next_state(old(self)@),
    {
        let span: u64 = (high - low) as u64;
        let bits: u64 = self.next_u64();
        let offset: u64 = bits % span;
        low + (offset as u32)
    }

    /// Draws a coin that is true with probability `chance` millionths: never
    /// when `chance` is 0, always when it is `AMOUNT_ONE` or more.
    pub fn next_bool(&mut self, chance: u32) -> (r: bool)
        ensures
            r == draw_bool(old(self)@, chance),
            chance == 0 ==> !r,
            chance >= AMOUNT_ONE ==> r,
            final(self)@ == next_state(old(self)@),
    {
        let fraction: u32 = self.next_fraction();
        fraction < chance
    }
}

} // verus!
