//! The mathematical model of the generator: what seeding writes into the
//! state, what a regeneration pass computes, and which word each call
//! returns.

use vstd::prelude::*;

verus! {

/// Number of words in the state vector.
pub const N: usize = 624;

/// Distance to the word that is folded into each regenerated word.
pub const M: usize = 397;

/// The constant vector that is folded in when the low bit is set.
pub const MATRIX_A: u32 = 0x9908b0df;

/// Mask selecting the most significant bit of a word.
pub const UPPER_MASK: u32 = 0x80000000;

/// Mask selecting the 31 least significant bits of a word.
pub const LOWER_MASK: u32 = 0x7fffffff;

/// Seed used when output is requested from a generator that was never seeded.
pub const DEFAULT_SEED: u32 = 5489;

/// Seed from which key seeding starts before it mixes the key in.
pub const KEY_BASE_SEED: u32 = 19650218;

/// Cursor value of a generator that was never seeded.
pub const UNSEEDED: usize = 625;

/// The word that follows `prev` at position `i` when seeding from a scalar:
/// `1812433253 * (prev ^ (prev >> 30)) + i`, modulo 2^32.
pub open spec fn seed_step(prev: u32, i: nat) -> u32 {
    1812433253u32.wrapping_mul(prev ^ (prev >> 30)).wrapping_add(i as u32)
}

/// Word `i` of the state that scalar seeding with `s` produces.
pub open spec fn seed_word(s: u32, i: nat) -> u32
    decreases i,
{
    if i == 0 {
        s
    } else {
        seed_step(seed_word(s, (i - 1) as nat), i)
    }
}

/// The 624 words that scalar seeding with `s` produces.
pub open spec fn seeded_words(s: u32) -> Seq<u32> {
    Seq::new(N as nat, |i: int| seed_word(s, i as nat))
}

/// Position in the state vector that mixing round `n` writes: the rounds
/// walk through positions 1 to 623 and start over.
pub open spec fn mix_cursor(n: nat) -> int {
    1 + (n % 623) as int
}

/// Position in a key of `key_len` words that mixing round `n` reads: the
/// rounds walk through the key and start over. It stays 0 for an empty key.
pub open spec fn key_cursor(key_len: nat, n: nat) -> int {
    if key_len == 0 {
        0
    } else {
        (n % key_len) as int
    }
}

/// The key word at position `j`; 0 where the key has no such word, which
/// is the case only for an empty key.
pub open spec fn key_word(key: Seq<u32>, j: int) -> u32 {
    if 0 <= j < key.len() {
        key[j]
    } else {
        0
    }
}

/// The 32 low bits of `j`.
pub open spec fn low_word(j: int) -> u32 {
    (j % 0x1_0000_0000) as u32
}

/// Number of rounds in which a key of `key_len` words is mixed in.
pub open spec fn key_rounds(key_len: nat) -> nat {
    if key_len > N {
        key_len
    } else {
        N as nat
    }
}

/// The word that a key-mixing round writes over `cur`, whose predecessor
/// in the state vector is `prev`, from the key word `k` at position `j`:
/// `(cur ^ ((prev ^ (prev >> 30)) * 1664525)) + k + j`, modulo 2^32.
pub open spec fn key_mix_word(cur: u32, prev: u32, k: u32, j: int) -> u32 {
    (cur ^ (prev ^ (prev >> 30)).wrapping_mul(1664525u32)).wrapping_add(k).wrapping_add(
        low_word(j),
    )
}

/// The word that a round of the second mixing pass writes over `cur` at
/// position `i`, whose predecessor is `prev`:
/// `(cur ^ ((prev ^ (prev >> 30)) * 1566083941)) - i`, modulo 2^32.
pub open spec fn final_mix_word(cur: u32, prev: u32, i: int) -> u32 {
    (cur ^ (prev ^ (prev >> 30)).wrapping_mul(1566083941u32)).wrapping_sub(i as u32)
}

/// What a mixing round that wrote position `i` leaves behind: after the
/// last position the last word is copied to position 0.
pub open spec fn wrap_around(w: Seq<u32>, i: int) -> Seq<u32> {
    if i == N - 1 {
        w.update(0, w[N - 1])
    } else {
        w
    }
}

/// The state vector after `n` rounds of mixing `key` into the vector that
/// scalar seeding with 19650218 produces.
pub open spec fn key_mixed(key: Seq<u32>, n: nat) -> Seq<u32>
    decreases n,
{
    if n == 0 {
        seeded_words(KEY_BASE_SEED)
    } else {
        let w = key_mixed(key, (n - 1) as nat);
        let i = mix_cursor((n - 1) as nat);
        let j = key_cursor(key.len(), (n - 1) as nat);
        wrap_around(w.update(i, key_mix_word(w[i], w[i - 1], key_word(key, j), j)), i)
    }
}

/// The state vector after all rounds of key mixing and `n` rounds of the
/// second pass, which goes on where key mixing stopped.
pub open spec fn final_mixed(key: Seq<u32>, n: nat) -> Seq<u32>
    decreases n,
{
    if n == 0 {
        key_mixed(key, key_rounds(key.len()))
    } else {
        let w = final_mixed(key, (n - 1) as nat);
        let i = mix_cursor((key_rounds(key.len()) + n - 1) as nat);
        wrap_around(w.update(i, final_mix_word(w[i], w[i - 1], i)), i)
    }
}

/// The 624 words that seeding with `key` produces: both mixing passes,
/// then the first word is set to 2^31 so that the vector is not all zero.
pub open spec fn key_seeded_words(key: Seq<u32>) -> Seq<u32> {
    final_mixed(key, (N - 1) as nat).update(0, UPPER_MASK)
}

/// The regeneration recurrence: the word made of the top bit of `cur` and
/// the 31 low bits of `succ`, shifted right by one, folded with the constant
/// vector when its low bit was set, and with `far`.
pub open spec fn regenerated_word(cur: u32, succ: u32, far: u32) -> u32 {
    let y = (cur & UPPER_MASK) | (succ & LOWER_MASK);
    far ^ (y >> 1) ^ (if y & 1 == 1 {
        MATRIX_A
    } else {
        0
    })
}

/// The word that regeneration writes at position `k` of `w`: the
/// recurrence on word `k`, its successor and the word 397 places on, with
/// positions taken modulo 624 and words taken from `w` as it stands.
pub open spec fn twist_word(w: Seq<u32>, k: int) -> u32 {
    regenerated_word(w[k], w[(k + 1) % (N as int)], w[(k + M) % (N as int)])
}

/// The state vector after regeneration has rewritten positions 0 to `k - 1`
/// in this order, each from the vector as the one before left it.
pub open spec fn twisted_upto(w: Seq<u32>, k: nat) -> Seq<u32>
    decreases k,
{
    if k == 0 {
        w
    } else {
        let p = twisted_upto(w, (k - 1) as nat);
        p.update(k - 1, twist_word(p, k - 1))
    }
}

/// The state vector after a full regeneration pass over `w`.
pub open spec fn twisted(w: Seq<u32>) -> Seq<u32> {
    twisted_upto(w, N as nat)
}

/// The tempering transform applied to a state word before it is returned.
pub open spec fn temper(y: u32) -> u32 {
    let a = y ^ (y >> 11);
    let b = a ^ ((a << 7) & 0x9d2c5680);
    let c = b ^ ((b << 15) & 0xefc60000);
    c ^ (c >> 18)
}

/// The state of a generator: its 624 words and its cursor.
#[verifier::ext_equal]
pub struct GeneratorState {
    /// The state vector.
    pub words: Seq<u32>,
    /// How many words of the current block have been handed out: 624 when
    /// the block is used up, 625 when the generator was never seeded.
    pub index: nat,
}

impl GeneratorState {
    /// The state vector has 624 words and the cursor is at most 625.
    pub open spec fn wf(self) -> bool {
        self.words.len() == N && self.index <= UNSEEDED
    }

    /// The state of a generator that was never seeded.
    pub open spec fn unseeded() -> GeneratorState {
        GeneratorState { words: Seq::new(N as nat, |i: int| 0u32), index: UNSEEDED as nat }
    }

    /// The state right after scalar seeding with `s`.
    pub open spec fn seeded(s: u32) -> GeneratorState {
        GeneratorState { words: seeded_words(s), index: N as nat }
    }

    /// The state right after seeding with `key`.
    pub open spec fn key_seeded(key: Seq<u32>) -> GeneratorState {
        GeneratorState { words: key_seeded_words(key), index: N as nat }
    }

    /// This state with its state vector replaced by `words`.
    pub open spec fn with_words(self, words: Seq<u32>) -> GeneratorState {
        GeneratorState { words, index: self.index }
    }

    /// This state with its cursor moved to `index`.
    pub open spec fn with_index(self, index: nat) -> GeneratorState {
        GeneratorState { words: self.words, index }
    }

    /// The state from which the next word is read: a generator whose block
    /// is used up regenerates first, and one that was never seeded takes
    /// the words of the default seed 5489 before that.
    pub open spec fn ready(self) -> GeneratorState {
        if self.index >= N {
            GeneratorState {
                words: twisted(
                    if self.index == UNSEEDED {
                        seeded_words(DEFAULT_SEED)
                    } else {
                        self.words
                    },
                ),
                index: 0,
            }
        } else {
            self
        }
    }

    /// The word that the next call returns.
    pub open spec fn output(self) -> u32 {
        temper(self.ready().words[self.ready().index as int])
    }

    /// The state after the next call.
    pub open spec fn step(self) -> GeneratorState {
        GeneratorState { words: self.ready().words, index: self.ready().index + 1 }
    }

    /// The state after `n` calls.
    pub open spec fn skip(self, n: nat) -> GeneratorState
        decreases n,
    {
        if n == 0 {
            self
        } else {
            self.skip((n - 1) as nat).step()
        }
    }

    /// The word that call number `n` returns, counting from 0.
    pub open spec fn output_at(self, n: nat) -> u32 {
        self.skip(n).output()
    }
}

} // verus!
