use mt19937::{MT19937, N};
use rand_core::RngCore;

fn key_of(len: usize) -> Vec<u32> {
    (0..len as u64).map(|i| ((i * 2654435761 + 12345) & 0xffff_ffff) as u32).collect()
}

#[test]
fn scalar_seed_follows_the_recurrence() {
    let mut rng = MT19937::default();
    rng.seed(0);
    let state = rng.get_state();
    assert_eq!(&state[..4], &[0, 1, 1812433255, 1900727105]);
    assert_eq!(state[623], 1796872496);
    assert_eq!(rng.get_index(), 624);

    rng.seed(1);
    assert_eq!(rng.get_state()[0], 1);
    assert_eq!(rng.get_state()[1], 1812433254);
}

#[test]
fn scalar_seed_5489_state() {
    let mut rng = MT19937::default();
    rng.seed(5489);
    let state = rng.get_state();
    assert_eq!(&state[..4], &[5489, 1301868182, 2938499221, 2950281878]);
    assert_eq!(state[623], 79981964);
    assert_eq!(rng.get_index(), N);
}

#[test]
fn scalar_seed_wraps_on_overflow() {
    let mut rng = MT19937::default();
    rng.seed(0xffff_ffff);
    let state = rng.get_state();
    assert_eq!(&state[..3], &[4294967295, 1340201581, 3941791902]);
    assert_eq!(state[623], 3413567280);
}

#[test]
fn scalar_seed_overwrites_earlier_state() {
    let mut used = MT19937::new_with_slice_seed(&[1, 2, 3]);
    for _ in 0..700 {
        used.next_u32();
    }
    used.seed(5489);
    let mut fresh = MT19937::default();
    fresh.seed(5489);
    assert_eq!(used.get_state(), fresh.get_state());
    assert_eq!(used.get_index(), fresh.get_index());
}

#[test]
fn key_seed_single_word() {
    let rng = MT19937::new_with_slice_seed(&[12345]);
    let state = rng.get_state();
    assert_eq!(state[0], 0x8000_0000);
    assert_eq!(state[1], 2105189241);
    assert_eq!(state[2], 1699489545);
    assert_eq!(state[623], 238504783);
    assert_eq!(rng.get_index(), 624);
}

#[test]
fn key_seed_four_words() {
    let mut rng = MT19937::new_with_slice_seed(&[0x123, 0x234, 0x345, 0x456]);
    assert_eq!(rng.get_state()[1], 1827812183);
    assert_eq!(rng.get_state()[623], 77518867);
    let outputs: Vec<u32> = (0..5).map(|_| rng.next_u32()).collect();
    assert_eq!(outputs, [1067595299, 955945823, 477289528, 4107218783, 4228976476]);
}

#[test]
fn key_seed_full_length_key() {
    let mut rng = MT19937::new_with_slice_seed(&key_of(624));
    assert_eq!(rng.get_state()[0], 0x8000_0000);
    assert_eq!(rng.get_state()[1], 2032663078);
    assert_eq!(rng.get_state()[623], 2330605222);
    let outputs: Vec<u32> = (0..3).map(|_| rng.next_u32()).collect();
    assert_eq!(outputs, [2785158684, 1763753035, 1595823907]);
}

#[test]
fn key_seed_key_one_longer_than_state() {
    let mut rng = MT19937::new_with_slice_seed(&key_of(625));
    assert_eq!(rng.get_state()[1], 3579415923);
    assert_eq!(rng.get_state()[623], 2410564953);
    let outputs: Vec<u32> = (0..3).map(|_| rng.next_u32()).collect();
    assert_eq!(outputs, [1772085144, 3717214388, 1485785791]);
}

#[test]
fn key_seed_long_key() {
    let mut rng = MT19937::new_with_slice_seed(&key_of(700));
    assert_eq!(rng.get_state()[1], 1287738024);
    assert_eq!(rng.get_state()[2], 1702693628);
    assert_eq!(rng.get_state()[623], 1257819827);
    assert_eq!(rng.get_index(), 624);
    let outputs: Vec<u32> = (0..3).map(|_| rng.next_u32()).collect();
    assert_eq!(outputs, [1635820964, 1788933857, 9490523]);
}

#[test]
fn key_seed_depends_on_key_length() {
    let one = MT19937::new_with_slice_seed(&[7]);
    let two = MT19937::new_with_slice_seed(&[7, 0]);
    assert_ne!(one.get_state(), two.get_state());
}

#[test]
fn key_seed_depends_on_every_word() {
    let mut key = key_of(700);
    let base = MT19937::new_with_slice_seed(&key);
    key[699] ^= 1;
    let changed = MT19937::new_with_slice_seed(&key);
    assert_ne!(base.get_state(), changed.get_state());
}

#[test]
fn empty_key_seeding_is_total() {
    let mut rng = MT19937::new_with_slice_seed(&[]);
    let state = rng.get_state();
    assert_eq!(state[0], 0x8000_0000);
    assert_eq!(state[1], 766982754);
    assert_eq!(state[2], 497961170);
    assert_eq!(state[623], 2902720905);
    assert_eq!(rng.get_index(), 624);
    let outputs: Vec<u32> = (0..3).map(|_| rng.next_u32()).collect();
    assert_eq!(outputs, [3626764237, 1654615998, 3255389356]);
}

#[test]
fn empty_key_seeding_is_deterministic() {
    let first = MT19937::new_with_slice_seed(&[]);
    let mut second = MT19937::default();
    second.seed(99);
    second.seed_slice(&[]);
    assert_eq!(first.get_state(), second.get_state());
    assert_eq!(first.get_index(), second.get_index());
}

#[test]
fn empty_key_seeds_as_the_zero_key() {
    let empty = MT19937::new_with_slice_seed(&[]);
    let zero = MT19937::new_with_slice_seed(&[0]);
    assert_eq!(empty.get_state(), zero.get_state());
}

#[test]
fn seed_slice_equals_new_with_slice_seed() {
    let made = MT19937::new_with_slice_seed(&[5, 6, 7]);
    let mut reseeded = MT19937::new_with_slice_seed(&[1]);
    reseeded.next_u32();
    reseeded.seed_slice(&[5, 6, 7]);
    assert_eq!(made.get_state(), reseeded.get_state());
    assert_eq!(made.get_index(), reseeded.get_index());
}

#[test]
fn same_scalar_seed_gives_same_sequence() {
    for s in [0u32, 1, 5489, 0xdead_beef, 0xffff_ffff] {
        let mut a = MT19937::default();
        let mut b = MT19937::new_with_slice_seed(&[3]);
        a.seed(s);
        b.seed(s);
        for _ in 0..2000 {
            assert_eq!(a.next_u32(), b.next_u32());
        }
    }
}

#[test]
fn same_key_gives_same_sequence() {
    let key = key_of(40);
    let mut a = MT19937::new_with_slice_seed(&key);
    let mut b = MT19937::new_with_slice_seed(&key);
    for _ in 0..2000 {
        assert_eq!(a.next_u32(), b.next_u32());
    }
}
