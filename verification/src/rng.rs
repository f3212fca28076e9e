//! The generator as a `rand_core` random number generator: words, 64-bit
//! values and bytes drawn from it, and construction from a byte seed.

use vstd::prelude::*;
use crate::generator::MT19937;
use crate::model::{GeneratorState, N};

verus! {

/// Number of bytes in a [`Seed`]: four for each word of a full-length key.
pub const SEED_BYTES: usize = 2496;

/// The 64-bit value made of two words, the first one drawn in the low half.
pub open spec fn u64_from_words(first: u32, second: u32) -> u64 {
    ((second as u64) << 32) | (first as u64)
}

/// Byte `k` of `word`, counting from the least significant one.
pub open spec fn le_byte(word: u32, k: int) -> u8 {
    if k == 0 {
        (word % 256) as u8
    } else if k == 1 {
        (word / 256 % 256) as u8
    } else if k == 2 {
        (word / 65536 % 256) as u8
    } else {
        (word / 16777216) as u8
    }
}

/// The word whose bytes are `b0` to `b3`, least significant first.
pub open spec fn le_word(b0: u8, b1: u8, b2: u8, b3: u8) -> u32 {
    (b0 + 256 * b1 + 65536 * b2 + 16777216 * b3) as u32
}

/// The key of 624 words that a byte seed stands for: each group of four
/// bytes is one word, least significant byte first.
pub open spec fn seed_key(bytes: Seq<u8>) -> Seq<u32> {
    Seq::new(
        N as nat,
        |i: int| le_word(bytes[4 * i], bytes[4 * i + 1], bytes[4 * i + 2], bytes[4 * i + 3]),
    )
}

/// Number of words drawn to fill `len` bytes: one for every four bytes and
/// one more for what is left.
pub open spec fn words_for(len: nat) -> nat {
    (len + 3) / 4
}

/// Seed material for [`MT19937`]: the bytes of a key of 624 words.
#[derive(Clone, Copy)]
pub struct Seed(pub [u8; SEED_BYTES]);

impl Default for Seed {
    /// The seed whose bytes are all zero.
    fn default() -> (seed: Self)
        ensures
            seed.0@ == Seq::new(SEED_BYTES as nat, |i: int| 0u8),
    {
        Seed([0u8; SEED_BYTES])
    }
}

impl AsRef<[u8]> for Seed {
    fn as_ref(&self) -> (bytes: &[u8])
        ensures
            bytes@ == self.0@,
    {
        &self.0
    }
}

impl AsMut<[u8]> for Seed {
    fn as_mut(&mut self) -> (bytes: &mut [u8])
        ensures
            bytes@ == old(self).0@,
            final(bytes)@ == final(self).0@,
    {
        &mut self.0
    }
}

/// Computes byte `k` of `word`, counting from the least significant one.
fn byte_of(word: u32, k: usize) -> (byte: u8)
    requires
        k < 4,
    ensures
        byte == le_byte(word, k as int),
{
    if k == 0 {
        (word % 256) as u8
    } else if k == 1 {
        (word / 256 % 256) as u8
    } else if k == 2 {
        (word / 65536 % 256) as u8
    } else {
        (word / 16777216) as u8
    }
}

/// Computes the word whose bytes are `b0` to `b3`, least significant first.
fn word_of(b0: u8, b1: u8, b2: u8, b3: u8) -> (word: u32)
    ensures
        word == le_word(b0, b1, b2, b3),
{
    b0 as u32 + 256 * (b1 as u32) + 65536 * (b2 as u32) + 16777216 * (b3 as u32)
}

impl rand_core::RngCore for MT19937 {
    /// The next word of the sequence.
    fn next_u32(&mut self) -> (y: u32)
        ensures
            y == old(self)@.output(),
            final(self)@ == old(self)@.step(),
            final(self)@.wf(),
    {
        self.gen_u32()
    }

    /// A 64-bit value made of the next two words, the first in the low half.
    fn next_u64(&mut self) -> (y: u64)
        ensures
            y == u64_from_words(old(self)@.output_at(0), old(self)@.output_at(1)),
            final(self)@ == old(self)@.skip(2),
            final(self)@.wf(),
    {
        let x: u64 = self.gen_u32() as u64;
        let y: u64 = self.gen_u32() as u64;
        assert(old(self)@.skip(2) == old(self)@.skip(1).step()
            && old(self)@.skip(1) == old(self)@.step()) by {
            reveal_with_fuel(GeneratorState::skip, 3);
        }
        (y << 32) | x
    }

    /// Fills `dest` with the bytes of the next words, each word least
    /// significant byte first; of the last word only the bytes that fit.
    fn fill_bytes(&mut self, dest: &mut [u8])
        ensures
            final(dest)@.len() == old(dest)@.len(),
            forall|p: int|
                0 <= p < old(dest)@.len() ==> #[trigger] final(dest)@[p] == le_byte(
                    old(self)@.output_at((p / 4) as nat),
                    p % 4,
                ),
            final(self)@ == old(self)@.skip(words_for(old(dest)@.len())),
            final(self)@.wf(),
    {
        proof {
            use_type_invariant(&*self);
        }
        let ghost start = self@;
        let len: usize = dest.len();
        let mut word: u32 = 0;
        let mut pos: usize = 0;
        while pos < len
            invariant
                pos <= len,
                dest@.len() == len,
                self@.wf(),
                self@ == start.skip(words_for(pos as nat)),
                pos % 4 != 0 ==> word == start.output_at((pos / 4) as nat),
                forall|p: int|
                    0 <= p < pos ==> #[trigger] dest@[p] == le_byte(
                        start.output_at((p / 4) as nat),
                        p % 4,
                    ),
            decreases len - pos,
        {
            if pos % 4 == 0 {
                word = self.gen_u32();
            }
            dest[pos] = byte_of(word, pos % 4);
            pos += 1;
        }
    }
}

impl rand_core::SeedableRng for MT19937 {
    type Seed = Seed;

    /// Makes a generator seeded from the key of 624 words that `seed`
    /// stands for.
    fn from_seed(seed: Seed) -> (rng: Self)
        ensures
            rng@ == GeneratorState::key_seeded(seed_key(seed.0@)),
            rng@.wf(),
    {
        let mut key: [u32; N] = [0u32; N];
        let mut i: usize = 0;
        while i < N
            invariant
                i <= N,
                forall|k: int|
                    0 <= k < i ==> key@[k] == le_word(
                        seed.0@[4 * k],
                        seed.0@[4 * k + 1],
                        seed.0@[4 * k + 2],
                        seed.0@[4 * k + 3],
                    ),
            decreases N - i,
        {
            let word: u32 = word_of(
                seed.0[4 * i],
                seed.0[4 * i + 1],
                seed.0[4 * i + 2],
                seed.0[4 * i + 3],
            );
            key[i] = word;
            i += 1;
        }
        assert(key@ =~= seed_key(seed.0@));
        MT19937::new_with_slice_seed(key.as_slice())
    }
}

} // verus!
