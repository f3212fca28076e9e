//! The executable generator.

use vstd::prelude::*;
use crate::model::{
    final_mix_word, final_mixed, key_cursor, key_mix_word, key_mixed, key_rounds, mix_cursor,
    regenerated_word, seed_step, seed_word, seeded_words, temper, twisted, twisted_upto,
    GeneratorState, DEFAULT_SEED, KEY_BASE_SEED, LOWER_MASK, M, MATRIX_A, N, UNSEEDED, UPPER_MASK,
};

verus! {

/// An MT19937 generator: 624 words of state and a cursor into them.
pub struct MT19937 {
    mt: [u32; N],
    mti: usize,
}

impl View for MT19937 {
    type V = GeneratorState;

    closed spec fn view(&self) -> GeneratorState {
        GeneratorState { words: self.mt@, index: self.mti as nat }
    }
}

/// Why a cursor value was refused: it lies beyond the end of the block.
#[derive(Clone, Copy, Debug, PartialEq, Eq, Structural)]
pub struct InvalidIndex {
    /// The refused value.
    pub index: usize,
}

impl Default for MT19937 {
    /// A generator that was never seeded: all words zero, cursor 625.
    fn default() -> (rng: Self)
        ensures
            rng@ == GeneratorState::unseeded(),
            rng@.wf(),
    {
        MT19937 { mt: [0u32; N], mti: N + 1 }
    }
}

impl MT19937 {
    /// Holds of every generator: its state is well formed.
    #[verifier::type_invariant]
    pub open spec fn inv(&self) -> bool {
        self@.wf()
    }

    /// Makes a generator seeded from a key of any length.
    pub fn new_with_slice_seed(init_key: &[u32]) -> (rng: Self)
        ensures
            rng@ == GeneratorState::key_seeded(init_key@),
            rng@.wf(),
    {
        let mut state = Self::default();
        state.seed_slice(init_key);
        state
    }

    /// Seeds the generator from one word.
    pub fn seed(&mut self, s: u32)
        ensures
            final(self)@ == GeneratorState::seeded(s),
            final(self)@.wf(),
    {
        proof {
            use_type_invariant(&*self);
        }
        self.mt[0] = s;
        let mut i: usize = 1;
        while i < N
            invariant
                1 <= i <= N,
                self.mti <= UNSEEDED,
                forall|k: int| 0 <= k < i ==> self.mt@[k] == seed_word(s, k as nat),
            decreases N - i,
        {
            let next: u32 = next_seed_word(self.mt[i - 1], i);
            self.mt[i] = next;
            i += 1;
        }
        self.mti = N;
        assert(self.mt@ =~= seeded_words(s));
    }

    /// Seeds the generator from a key of any length.
    pub fn seed_slice(&mut self, init_key: &[u32])
        ensures
            final(self)@ == GeneratorState::key_seeded(init_key@),
            final(self)@.wf(),
    {
        self.seed(KEY_BASE_SEED);
        let len: usize = init_key.len();
        let rounds: usize = if N > len {
            N
        } else {
            len
        };
        let mut i: usize = 1;
        let mut j: usize = 0;
        let mut k: usize = rounds;
        let ghost mut n: nat = 0;
        while k != 0
            invariant
                len == init_key@.len(),
                n + k == rounds,
                self.mti == N,
                1 <= i < N,
                i == mix_cursor(n),
                j == key_cursor(len as nat, n),
                self.mt@ == key_mixed(init_key@, n),
            decreases k,
        {
            proof {
                lemma_mix_cursor_step(n);
                lemma_key_cursor_step(len as nat, n);
            }
            let word: u32 = if j < len {
                init_key[j]
            } else {
                0
            };
            let mixed: u32 = mix_key_word(self.mt[i], self.mt[i - 1], word, j);
            self.mt[i] = mixed;
            i += 1;
            j += 1;
            if i >= N {
                self.mt[0] = self.mt[N - 1];
                i = 1;
            }
            if j >= len {
                j = 0;
            }
            k -= 1;
            proof {
                n = n + 1;
            }
        }
        k = N - 1;
        let ghost mut m: nat = 0;
        while k != 0
            invariant
                n == key_rounds(init_key@.len()),
                m + k == N - 1,
                self.mti == N,
                1 <= i < N,
                i == mix_cursor(n + m),
                self.mt@ == final_mixed(init_key@, m),
            decreases k,
        {
            proof {
                lemma_mix_cursor_step(n + m);
            }
            let mixed: u32 = mix_final_word(self.mt[i], self.mt[i - 1], i);
            self.mt[i] = mixed;
            i += 1;
            if i >= N {
                self.mt[0] = self.mt[N - 1];
                i = 1;
            }
            k -= 1;
            proof {
                m = m + 1;
            }
        }
        self.mt[0] = UPPER_MASK;
    }

    /// The state vector.
    pub fn get_state(&self) -> (mt: &[u32; N])
        ensures
            mt@ == self@.words,
            self@.wf(),
    {
        proof {
            use_type_invariant(self);
        }
        &self.mt
    }

    /// The cursor: how many words of the current block have been handed
    /// out, or 625 if the generator was never seeded.
    pub fn get_index(&self) -> (mti: usize)
        ensures
            mti == self@.index,
            self@.wf(),
    {
        proof {
            use_type_invariant(self);
        }
        self.mti
    }

    /// Replaces the state vector and leaves the cursor as it is.
    pub fn set_state(&mut self, mt: &[u32; N])
        ensures
            final(self)@ == old(self)@.with_words(mt@),
            final(self)@.wf(),
    {
        proof {
            use_type_invariant(&*self);
        }
        self.mt = *mt;
    }

    /// Moves the cursor to `mti` and leaves the state vector as it is. A
    /// value above 624 is refused and nothing changes; 624 makes the next
    /// call regenerate.
    pub fn set_index(&mut self, mti: usize) -> (outcome: Result<(), InvalidIndex>)
        ensures
            mti <= N ==> outcome == Ok::<(), InvalidIndex>(()),
            mti <= N ==> final(self)@ == old(self)@.with_index(mti as nat),
            mti > N ==> outcome == Err::<(), InvalidIndex>(InvalidIndex { index: mti }),
            mti > N ==> final(self)@ == old(self)@,
            final(self)@.wf(),
    {
        proof {
            use_type_invariant(&*self);
        }
        if mti <= N {
            self.mti = mti;
            Ok(())
        } else {
            Err(InvalidIndex { index: mti })
        }
    }

    /// Rewrites all 624 words of the state vector in one regeneration pass.
    fn regenerate(&mut self)
        ensures
            final(self).mt@ == twisted(old(self).mt@),
            final(self).mti == old(self).mti,
    {
        proof {
            use_type_invariant(&*self);
        }
        let ghost before = self.mt@;
        let mut kk: usize = 0;
        while kk < N - M
            invariant
                kk <= N - M,
                self.mti == old(self).mti,
                self.mti <= UNSEEDED,
                self.mt@ == twisted_upto(before, kk as nat),
            decreases N - M - kk,
        {
            let word: u32 = twist(self.mt[kk], self.mt[kk + 1], self.mt[kk + M]);
            self.mt[kk] = word;
            kk += 1;
        }
        while kk < N - 1
            invariant
                N - M <= kk <= N - 1,
                self.mti == old(self).mti,
                self.mti <= UNSEEDED,
                self.mt@ == twisted_upto(before, kk as nat),
            decreases N - 1 - kk,
        {
            let word: u32 = twist(self.mt[kk], self.mt[kk + 1], self.mt[kk - (N - M)]);
            self.mt[kk] = word;
            kk += 1;
        }
        let word: u32 = twist(self.mt[N - 1], self.mt[0], self.mt[M - 1]);
        self.mt[N - 1] = word;
    }

    /// Produces the next word: regenerates first if the block is used up,
    /// after seeding with 5489 if the generator was never seeded.
    pub fn gen_u32(&mut self) -> (y: u32)
        ensures
            y == old(self)@.output(),
            final(self)@ == old(self)@.step(),
            final(self)@.wf(),
    {
        proof {
            use_type_invariant(&*self);
        }
        if self.mti >= N {
            if self.mti == N + 1 {
                self.seed(DEFAULT_SEED);
            }
            self.regenerate();
            self.mti = 0;
        }
        let y: u32 = self.mt[self.mti];
        self.mti += 1;
        temper_word(y)
    }
}

/// Computes a regenerated word from the word it replaces, that word's
/// successor and the word 397 places on.
fn twist(cur: u32, succ: u32, far: u32) -> (word: u32)
    ensures
        word == regenerated_word(cur, succ, far),
{
    let y: u32 = (cur & UPPER_MASK) | (succ & LOWER_MASK);
    let mag: u32 = if (y & 0x1) == 1 {
        MATRIX_A
    } else {
        0
    };
    far ^ (y >> 1) ^ mag
}

/// Tempers a state word.
fn temper_word(word: u32) -> (y: u32)
    ensures
        y == temper(word),
{
    let mut y: u32 = word;
    y ^= y >> 11;
    y ^= (y << 7) & 0x9d2c5680u32;
    y ^= (y << 15) & 0xefc60000u32;
    y ^= y >> 18;
    y
}

/// The mixing cursor moves on by one and starts over at 1 after 623.
proof fn lemma_mix_cursor_step(n: nat)
    ensures
        1 <= mix_cursor(n) < N,
        mix_cursor(n + 1) == if mix_cursor(n) + 1 >= N {
            1
        } else {
            mix_cursor(n) + 1
        },
{
}

/// The key cursor moves on by one and starts over at the end of the key.
proof fn lemma_key_cursor_step(len: nat, n: nat)
    ensures
        key_cursor(len, n + 1) == if key_cursor(len, n) + 1 >= len {
            0
        } else {
            key_cursor(len, n) + 1
        },
{
    if len > 0 {
        let l = len as int;
        let m = n as int;
        assert((m + 1) % l == if m % l + 1 >= l {
            0
        } else {
            m % l + 1
        }) by (nonlinear_arith)
            requires
                l > 0,
                m >= 0,
        ;
    }
}

/// Computes the word that a key-mixing round writes.
fn mix_key_word(cur: u32, prev: u32, k: u32, j: usize) -> (mixed: u32)
    ensures
        mixed == key_mix_word(cur, prev, k, j as int),
{
    let low: u32 = ((j as u64) % 0x1_0000_0000u64) as u32;
    (cur ^ (prev ^ (prev >> 30)).wrapping_mul(1664525u32)).wrapping_add(k).wrapping_add(low)
}

/// Computes the word that a round of the second mixing pass writes.
fn mix_final_word(cur: u32, prev: u32, i: usize) -> (mixed: u32)
    requires
        i < N,
    ensures
        mixed == final_mix_word(cur, prev, i as int),
{
    (cur ^ (prev ^ (prev >> 30)).wrapping_mul(1566083941u32)).wrapping_sub(i as u32)
}

/// Computes the word that follows `prev` at position `i` in scalar seeding.
fn next_seed_word(prev: u32, i: usize) -> (next: u32)
    requires
        i < N,
    ensures
        next == seed_step(prev, i as nat),
{
    1812433253u32.wrapping_mul(prev ^ (prev >> 30)).wrapping_add(i as u32)
}

} // verus!
