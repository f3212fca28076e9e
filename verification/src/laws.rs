//! Laws of the generator, stated over its model and proved.

use vstd::prelude::*;
use crate::model::{
    final_mixed, key_cursor, key_mixed, key_rounds, key_word, regenerated_word, seeded_words,
    temper, twisted, twisted_upto, GeneratorState, DEFAULT_SEED, M, N,
};

verus! {

/// Regeneration keeps the length of the state vector.
pub proof fn lemma_twisted_len(w: Seq<u32>, k: nat)
    requires
        w.len() == N,
        k <= N,
    ensures
        twisted_upto(w, k).len() == N,
    decreases k,
{
    if k > 0 {
        lemma_twisted_len(w, (k - 1) as nat);
    }
}

/// While regeneration rewrites the state vector in place, a word that it
/// has not reached yet is as it was, and a word that it has written stays.
proof fn lemma_twisted_frame(w: Seq<u32>, k: nat, j: int)
    requires
        w.len() == N,
        k <= N,
        0 <= j < N,
    ensures
        j >= k ==> twisted_upto(w, k)[j] == w[j],
        j < k ==> twisted_upto(w, k)[j] == twisted_upto(w, (j + 1) as nat)[j],
    decreases k,
{
    if k > 0 {
        lemma_twisted_frame(w, (k - 1) as nat, j);
        lemma_twisted_len(w, (k - 1) as nat);
    }
}

/// Regeneration word by word: word `k` of the new vector comes from the
/// recurrence on the old word `k`, its successor and the word 397 places
/// on. Where those lie behind `k` in the vector, which is so for the
/// successor of the last word and for the far word of the last 397, they
/// are words of the new vector.
pub proof fn lemma_twisted_word(w: Seq<u32>, k: int)
    requires
        w.len() == N,
        0 <= k < N,
    ensures
        twisted(w).len() == N,
        twisted(w)[k] == regenerated_word(
            w[k],
            if k < N - 1 {
                w[k + 1]
            } else {
                twisted(w)[0]
            },
            if k < N - M {
                w[k + M]
            } else {
                twisted(w)[k - (N - M)]
            },
        ),
{
    let before = twisted_upto(w, k as nat);
    lemma_twisted_len(w, N as nat);
    lemma_twisted_len(w, k as nat);
    lemma_twisted_frame(w, N as nat, k);
    lemma_twisted_frame(w, k as nat, k);
    assert(twisted_upto(w, (k + 1) as nat)[k] == regenerated_word(
        before[k],
        before[(k + 1) % (N as int)],
        before[(k + M) % (N as int)],
    ));
    if k < N - 1 {
        lemma_twisted_frame(w, k as nat, k + 1);
    } else {
        lemma_twisted_frame(w, k as nat, 0);
        lemma_twisted_frame(w, N as nat, 0);
    }
    if k < N - M {
        lemma_twisted_frame(w, k as nat, k + M);
    } else {
        lemma_twisted_frame(w, k as nat, k - (N - M));
        lemma_twisted_frame(w, N as nat, k - (N - M));
    }
}

/// Key mixing keeps the length of the state vector.
pub proof fn lemma_key_mixed_len(key: Seq<u32>, n: nat)
    ensures
        key_mixed(key, n).len() == N,
    decreases n,
{
    if n > 0 {
        lemma_key_mixed_len(key, (n - 1) as nat);
    }
}

/// The second mixing pass keeps the length of the state vector.
pub proof fn lemma_final_mixed_len(key: Seq<u32>, n: nat)
    ensures
        final_mixed(key, n).len() == N,
    decreases n,
{
    if n > 0 {
        lemma_final_mixed_len(key, (n - 1) as nat);
    } else {
        lemma_key_mixed_len(key, key_rounds(key.len()));
    }
}

/// Seeding leaves a well-formed state whose block is used up, from a
/// scalar and from a key of any length, the empty one included.
pub proof fn lemma_seeding_wf(s: u32, key: Seq<u32>)
    ensures
        GeneratorState::seeded(s).wf(),
        GeneratorState::seeded(s).index == N,
        GeneratorState::key_seeded(key).wf(),
        GeneratorState::key_seeded(key).index == N,
        GeneratorState::key_seeded(key).words[0] == 0x8000_0000u32,
{
    lemma_final_mixed_len(key, (N - 1) as nat);
}

/// Drawing words keeps the state well formed.
pub proof fn lemma_skip_wf(st: GeneratorState, n: nat)
    requires
        st.wf(),
    ensures
        st.skip(n).wf(),
    decreases n,
{
    if n > 0 {
        lemma_skip_wf(st, (n - 1) as nat);
        let before = st.skip((n - 1) as nat);
        if before.index >= N {
            if before.index == N {
                lemma_twisted_len(before.words, N as nat);
            } else {
                lemma_twisted_len(seeded_words(DEFAULT_SEED), N as nat);
            }
        }
    }
}

/// Two generators that were seeded with the same scalar return the same
/// word at every position of their sequences and pass through the same
/// states, whatever each of them held before it was seeded.
pub proof fn lemma_same_seed_same_sequence(a: GeneratorState, b: GeneratorState, s: u32, n: nat)
    requires
        a == GeneratorState::seeded(s),
        b == GeneratorState::seeded(s),
    ensures
        a.output_at(n) == b.output_at(n),
        a.skip(n) == b.skip(n),
{
}

/// Two generators that were seeded with the same key return the same word
/// at every position of their sequences and pass through the same states,
/// whatever each of them held before it was seeded.
pub proof fn lemma_same_key_same_sequence(
    a: GeneratorState,
    b: GeneratorState,
    key: Seq<u32>,
    n: nat,
)
    requires
        a == GeneratorState::key_seeded(key),
        b == GeneratorState::key_seeded(key),
    ensures
        a.output_at(n) == b.output_at(n),
        a.skip(n) == b.skip(n),
{
}

/// A generator that was never seeded returns, at every position, the word
/// that a generator seeded with 5489 returns there.
pub proof fn lemma_unseeded_is_default_seeded(n: nat)
    ensures
        GeneratorState::unseeded().output_at(n) == GeneratorState::seeded(DEFAULT_SEED).output_at(
            n,
        ),
        n >= 1 ==> GeneratorState::unseeded().skip(n) == GeneratorState::seeded(DEFAULT_SEED).skip(
            n,
        ),
    decreases n,
{
    let u = GeneratorState::unseeded();
    let d = GeneratorState::seeded(DEFAULT_SEED);
    assert(u.ready() == d.ready());
    if n == 1 {
        assert(u.skip(1) == u.skip(0).step());
        assert(d.skip(1) == d.skip(0).step());
    } else if n > 1 {
        lemma_unseeded_is_default_seeded((n - 1) as nat);
    }
}

/// The block after a seed: from a state whose block is used up, as
/// seeding leaves it, the first call regenerates the state vector once,
/// and after `k` calls, for `k` from 1 to 624, the cursor reads `k` and call
/// number `k - 1` has returned the tempered word `k - 1` of the regenerated
/// vector. So after exactly 624 calls the cursor reads 624 again, over the
/// regenerated vector, and the call after that regenerates once more.
pub proof fn lemma_block_after_seed(st: GeneratorState, k: nat)
    requires
        st.wf(),
        st.index == N,
        1 <= k <= N,
    ensures
        st.skip(k) == (GeneratorState { words: twisted(st.words), index: k }),
        st.output_at((k - 1) as nat) == temper(twisted(st.words)[k - 1]),
        k == N ==> st.skip(k).ready() == (GeneratorState {
            words: twisted(twisted(st.words)),
            index: 0,
        }),
    decreases k,
{
    if k == 1 {
        assert(st.skip(1) == st.skip(0).step());
    } else {
        lemma_block_after_seed(st, (k - 1) as nat);
    }
}

/// A fresh generator that is given the state vector and then the cursor of
/// a generator `g` is in the state of `g`, and so returns the same word at
/// every position. The cursor of a `g` that was never seeded is refused,
/// which leaves the fresh generator unseeded, as `g` is.
pub proof fn lemma_state_round_trip(g: GeneratorState, n: nat)
    requires
        g.wf(),
    ensures
        ({
            let loaded = GeneratorState::unseeded().with_words(g.words);
            let restored = if g.index <= N {
                loaded.with_index(g.index)
            } else {
                loaded
            };
            &&& restored == g
            &&& restored.output_at(n) == g.output_at(n)
            &&& restored.skip(n) == g.skip(n)
        }),
{
}

/// Seeding with the empty key is seeding with the key that holds the one
/// word 0: with no key word to add, the key adds nothing in any round.
pub proof fn lemma_empty_key_is_zero_key()
    ensures
        GeneratorState::key_seeded(Seq::<u32>::empty()) == GeneratorState::key_seeded(seq![0u32]),
{
    let e = Seq::<u32>::empty();
    let z = seq![0u32];
    lemma_empty_key_mixes_as_zero_key(N as nat);
    assert(key_rounds(e.len()) == N && key_rounds(z.len()) == N);
    lemma_empty_key_final_mixes_as_zero_key((N - 1) as nat);
}

/// The empty key and the key of one word 0 agree after every round of key
/// mixing.
proof fn lemma_empty_key_mixes_as_zero_key(n: nat)
    ensures
        key_mixed(Seq::<u32>::empty(), n) == key_mixed(seq![0u32], n),
    decreases n,
{
    if n > 0 {
        lemma_empty_key_mixes_as_zero_key((n - 1) as nat);
        let e = Seq::<u32>::empty();
        let z = seq![0u32];
        assert(key_cursor(z.len(), (n - 1) as nat) == 0);
        assert(key_word(z, 0) == 0 && key_word(e, 0) == 0);
    }
}

/// The empty key and the key of one word 0 agree after every round of the
/// second mixing pass.
proof fn lemma_empty_key_final_mixes_as_zero_key(n: nat)
    ensures
        final_mixed(Seq::<u32>::empty(), n) == final_mixed(seq![0u32], n),
    decreases n,
{
    if n > 0 {
        lemma_empty_key_final_mixes_as_zero_key((n - 1) as nat);
    } else {
        lemma_empty_key_mixes_as_zero_key(N as nat);
    }
}

} // verus!
