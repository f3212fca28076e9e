use mt19937::{gen_res53_parts, res53_parts, MT19937};
use rand_core::RngCore;

fn to_double(parts: (u32, u32)) -> f64 {
    (parts.0 as f64 * 67108864.0 + parts.1 as f64) * (1.0 / 9007199254740992.0)
}

#[test]
fn double_for_key_12345() {
    let mut rng = MT19937::new_with_slice_seed(&[12345]);
    let parts = gen_res53_parts(&mut rng);
    assert_eq!(parts, (55917772, 49169676));
    let expected: f64 = 0.416619872545341163316834354191087186336517333984375;
    assert_eq!(to_double(parts), expected);
    assert_eq!(rng.get_index(), 2);
}

#[test]
fn parts_shift_first_word_by_5_and_second_by_6() {
    assert_eq!(res53_parts(0, 0), (0, 0));
    assert_eq!(res53_parts(32, 64), (1, 1));
    assert_eq!(res53_parts(31, 63), (0, 0));
    assert_eq!(res53_parts(1789368711, 3146859322), (55917772, 49169676));
    assert_eq!(res53_parts(0xffff_ffff, 0xffff_ffff), (134217727, 67108863));
}

#[test]
fn largest_double_is_below_one() {
    let top = to_double(res53_parts(0xffff_ffff, 0xffff_ffff));
    assert!(top < 1.0);
    assert_eq!(top, 1.0 - 1.0 / 9007199254740992.0);
    assert_eq!(to_double(res53_parts(0, 0)), 0.0);
}

#[test]
fn parts_use_two_consecutive_words_in_order() {
    let mut drawn = MT19937::new_with_slice_seed(&[12345]);
    let mut words = MT19937::new_with_slice_seed(&[12345]);
    for _ in 0..700 {
        let first = words.next_u32();
        let second = words.next_u32();
        assert_eq!(gen_res53_parts(&mut drawn), (first >> 5, second >> 6));
    }
    assert_eq!(drawn.get_index(), words.get_index());
    assert_eq!(drawn.get_state(), words.get_state());
}

#[test]
fn doubles_stay_in_unit_interval() {
    let mut rng = MT19937::default();
    for _ in 0..5000 {
        let x = to_double(gen_res53_parts(&mut rng));
        assert!((0.0..1.0).contains(&x));
    }
}
