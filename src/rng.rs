//! Deterministic pseudo-random generator shared by spawning and enemy AI.
use vstd::prelude::*;

verus! {

/// The successor of `seed` in the generator's sequence, with every product
/// taken modulo 2^32.
pub open spec fn next_random_spec(seed: u32) -> u32 {
    vstd::wrapping::u32_specs::wrapping_mul(seed, 15417) ^ (seed << 31u32)
        ^ (vstd::wrapping::u32_specs::wrapping_mul(seed, 123651) >> 7u32)
}

/// Advances the generator: a pure function of `seed`.
pub fn next_random(seed: u32) -> (r: u32)
    ensures
        r == next_random_spec(seed),
{
    seed.wrapping_mul(15417) ^ (seed << 31u32) ^ (seed.wrapping_mul(123651) >> 7u32)
}

} // verus!
