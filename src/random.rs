//! Integer hashes and the small deterministic generator that perturbs
//! bounce directions. Each worker owns its own generator, so no state is
//! shared between pixels.
use vstd::prelude::*;
use vstd::wrapping::u32_specs::{wrapping_add, wrapping_mul};

verus! {

/// Thomas Wang's 32-bit integer hash, with multiplication modulo 2^32.
pub open spec fn wang_hash_spec(seed: u32) -> u32 {
    let s1 = (seed ^ 61u32) ^ (seed >> 16u32);
    let s2 = wrapping_mul(s1, 9);
    let s3 = s2 ^ (s2 >> 4u32);
    let s4 = wrapping_mul(s3, 0x27d4eb2d);
    s4 ^ (s4 >> 15u32)
}

/// One step of the PCG linear congruential generator on `input`, followed
/// by its random-shift output permutation.
pub open spec fn pcg_hash_spec(input: u32) -> u32 {
    let state = wrapping_add(wrapping_mul(input, 747796405), 2891336453);
    let word = wrapping_mul((state >> ((state >> 28u32) + 4u32) as u32) ^ state, 277803737);
    (word >> 22u32) ^ word
}

/// Wang's integer hash of `seed`.
pub fn wang_hash(seed: u32) -> (r: u32)
    ensures
        r == wang_hash_spec(seed),
{
    let mut seed = seed;
    seed = (seed ^ 61) ^ (seed >> 16);
    seed = seed.wrapping_mul(9);
    seed ^= seed >> 4;
    seed = seed.wrapping_mul(0x27d4eb2d);
    seed ^= seed >> 15;
    seed
}

/// The PCG hash of `input`; also the step function of [`PcgHashRng`].
pub fn pcg_hash(input: u32) -> (r: u32)
    ensures
        r == pcg_hash_spec(input),
{
    let state = input.wrapping_mul(747796405).wrapping_add(2891336453);
    assert(state >> 28u32 <= 15u32) by (bit_vector);
    let word = ((state >> ((state >> 28) + 4)) ^ state).wrapping_mul(277803737);
    (word >> 22) ^ word
}

/// A generator whose whole state is one 32-bit word: each draw replaces the
/// state by its PCG hash and returns the new state.
pub struct PcgHashRng {
    pub seed: u32,
}

/// Two consecutive 32-bit draws from `seed` joined into one 64-bit value,
/// the first draw in the low half.
pub open spec fn pcg_u64_spec(seed: u32) -> u64 {
    let lo = pcg_hash_spec(seed);
    let hi = pcg_hash_spec(lo);
    (hi as int * 0x1_0000_0000 + lo as int) as u64
}

impl PcgHashRng {
    /// A generator that starts from `seed`.
    pub fn new(seed: u32) -> (r: Self)
        ensures
            r.seed == seed,
    {
        PcgHashRng { seed }
    }

    /// Advances the state by one hash step and returns the new state.
    pub fn next_u32(&mut self) -> (r: u32)
        ensures
            final(self).seed == pcg_hash_spec(old(self).seed),
            r == final(self).seed,
    {
        self.seed = pcg_hash(self.seed);
        self.seed
    }

    /// Draws two 32-bit values and joins them, the first in the low half.
    pub fn next_u64(&mut self) -> (r: u64)
        ensures
            final(self).seed == pcg_hash_spec(pcg_hash_spec(old(self).seed)),
            r == pcg_u64_spec(old(self).seed),
    {
        let lo = self.next_u32() as u64;
        let hi = self.next_u32() as u64;
        assert((hi << 32u64) | lo == hi * 0x1_0000_0000 + lo) by (bit_vector)
            requires
                hi < 0x1_0000_0000,
                lo < 0x1_0000_0000,
        ;
        (hi << 32) | lo
    }
}

} // verus!
