//! The two integers from which a number in [0, 1) with 53 bits of
//! resolution is made.
//!
//! The number is `(high * 2^26 + low) / 2^53`, where `high` holds the 27
//! upper bits of one word and `low` the 26 upper bits of the next.

use vstd::prelude::*;
use crate::generator::MT19937;

verus! {

/// The numerator `high * 2^26 + low` that two consecutive words give.
pub open spec fn res53_numerator(first: u32, second: u32) -> int {
    (first >> 5) * 67108864 + (second >> 6)
}

/// Splits two consecutive words into the 27-bit and the 26-bit part of a
/// 53-bit numerator, which is below 2^53.
pub fn res53_parts(first: u32, second: u32) -> (parts: (u32, u32))
    ensures
        parts.0 == first >> 5,
        parts.1 == second >> 6,
        parts.0 < 134217728,
        parts.1 < 67108864,
        0 <= res53_numerator(first, second) < 9007199254740992,
{
    assert(first >> 5 < 134217728) by (bit_vector);
    assert(second >> 6 < 67108864) by (bit_vector);
    (first >> 5, second >> 6)
}

/// Draws two words from `rng` and splits them: the first word gives the
/// 27-bit part, the second the 26-bit part.
pub fn gen_res53_parts(rng: &mut MT19937) -> (parts: (u32, u32))
    ensures
        parts.0 == old(rng)@.output_at(0) >> 5,
        parts.1 == old(rng)@.output_at(1) >> 6,
        parts.0 < 134217728,
        parts.1 < 67108864,
        final(rng)@ == old(rng)@.skip(2),
        final(rng)@.wf(),
{
    let first: u32 = rng.gen_u32();
    let second: u32 = rng.gen_u32();
    assert(old(rng)@.skip(2) == old(rng)@.skip(1).step() && old(rng)@.skip(1) == old(rng)@.step())
        by {
        reveal_with_fuel(crate::model::GeneratorState::skip, 3);
    }
    res53_parts(first, second)
}

} // verus!
