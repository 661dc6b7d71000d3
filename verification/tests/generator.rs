use prng::lehmer::{MODULUS, MULTIPLIER, MULTIPLIER_INVERSE, PERIOD};
use prng::PRNG;

const FIRST_TEN: [u64; 10] = [
    16807, 282475249, 1622650073, 984943658, 1144108930, 470211272, 101027544, 1457850878,
    1458777923, 2007237709,
];

/// The recurrence, computed the plain way in 128 bits.
fn product_modulo(seed: u64) -> u64 {
    ((MULTIPLIER as u128 * seed as u128) % MODULUS as u128) as u64
}

#[test]
fn lib_test_a_few_random_u64s() {
    let expected_sequence: [u64; 10] = [
        16807, 282475249, 1622650073, 984943658, 1144108930, 470211272, 101027544, 1457850878,
        1458777923, 2007237709,
    ];

    let mut prng = PRNG::new(1);

    expected_sequence.iter().for_each(|number| {
        let current_u64 = prng.next_unsigned_integer();
        assert_eq!(*number, current_u64);
    });
}

#[test]
fn lib_test_a_few_random_f32s() {
    let expected_sequence: [f32; 10] = [
        0.000007826369,
        0.1315378,
        0.75560534,
        0.45865014,
        0.53276724,
        0.21895918,
        0.047044616,
        0.6788647,
        0.67929643,
        0.9346929,
    ];

    let mut prng = PRNG::new(1);

    expected_sequence.iter().for_each(|number| {
        let current_f32 = prng.next_unsigned_integer() as f32 / 2147483647.0;
        assert_eq!(*number, current_f32);
    });
}

#[test]
fn constants_are_those_of_the_minimal_standard() {
    assert_eq!(MULTIPLIER, 16807);
    assert_eq!(MODULUS, 2147483647);
    assert_eq!(PERIOD, 2147483646);
    assert_eq!(MULTIPLIER_INVERSE, 1407677000);
    assert_eq!((MULTIPLIER * MULTIPLIER_INVERSE) % MODULUS, 1);
}

#[test]
fn first_call_returns_the_multiplier() {
    let mut prng = PRNG::new(1);
    assert_eq!(prng.next_unsigned_integer(), 16807);
}

#[test]
fn zero_seed_becomes_one() {
    let prng = PRNG::new(0);
    assert_eq!(prng.current_seed(), 1);
}

#[test]
fn zero_seed_gives_the_sequence_of_seed_one() {
    let mut from_zero = PRNG::new(0);
    let mut from_one = PRNG::new(1);
    for expected in FIRST_TEN {
        let a = from_zero.next_unsigned_integer();
        let b = from_one.next_unsigned_integer();
        assert_eq!(a, expected);
        assert_eq!(b, expected);
    }
    for _ in 0..1000 {
        assert_eq!(from_zero.next_unsigned_integer(), from_one.next_unsigned_integer());
    }
}

#[test]
fn nonzero_seeds_are_kept_as_they_are() {
    for seed in [1u64, 2, 16807, 2147483646, 2147483647, 2147483648, 4294967295, u64::MAX] {
        assert_eq!(PRNG::new(seed).current_seed(), seed);
    }
}

#[test]
fn current_seed_is_the_value_last_returned() {
    let mut prng = PRNG::new(1);
    assert_eq!(prng.current_seed(), 1);
    for expected in FIRST_TEN {
        let value = prng.next_unsigned_integer();
        assert_eq!(value, expected);
        assert_eq!(prng.current_seed(), expected);
        assert_eq!(prng.current_seed(), expected);
    }
}

#[test]
fn equal_seeds_give_equal_sequences() {
    let mut a = PRNG::new(123456789);
    let mut b = PRNG::new(123456789);
    for _ in 0..1000 {
        assert_eq!(a.next_unsigned_integer(), b.next_unsigned_integer());
    }
}

#[test]
fn ten_thousandth_value_from_seed_one() {
    let mut prng = PRNG::new(1);
    let mut value = 0;
    for _ in 0..10000 {
        value = prng.next_unsigned_integer();
    }
    assert_eq!(value, 1043618065);
}

#[test]
fn each_call_is_the_product_modulo_the_modulus() {
    for seed in [1u64, 2, 3, 65535, 65536, 65537, 127773, 1407677000, 2147483645, 2147483646] {
        let mut prng = PRNG::new(seed);
        assert_eq!(prng.next_unsigned_integer(), product_modulo(seed));
    }
    let mut seed: u64 = 1;
    while seed < MODULUS {
        let mut prng = PRNG::new(seed);
        assert_eq!(prng.next_unsigned_integer(), product_modulo(seed));
        seed += 104729;
    }
}

#[test]
fn a_long_run_follows_the_recurrence() {
    let mut prng = PRNG::new(1);
    let mut state: u64 = 1;
    for _ in 0..100000 {
        state = product_modulo(state);
        assert_eq!(prng.next_unsigned_integer(), state);
    }
}

#[test]
fn exact_values_at_chosen_seeds() {
    assert_eq!(PRNG::new(2).next_unsigned_integer(), 33614);
    assert_eq!(PRNG::new(65535).next_unsigned_integer(), 1101446745);
    assert_eq!(PRNG::new(65536).next_unsigned_integer(), 1101463552);
    assert_eq!(PRNG::new(127773).next_unsigned_integer(), 2147480811);
}

#[test]
fn last_residue_steps_to_modulus_less_multiplier() {
    let mut prng = PRNG::new(2147483646);
    assert_eq!(prng.next_unsigned_integer(), 2147466840);
    assert_eq!(prng.current_seed(), 2147483647 - 16807);
}

#[test]
fn inverse_of_the_multiplier_steps_to_one() {
    let mut prng = PRNG::new(MULTIPLIER_INVERSE);
    assert_eq!(prng.next_unsigned_integer(), 1);
    assert_eq!(prng.next_unsigned_integer(), 16807);
}

#[test]
fn states_stay_nonzero_residues() {
    let mut prng = PRNG::new(2147483646);
    for _ in 0..100000 {
        let value = prng.next_unsigned_integer();
        assert!(1 <= value && value < MODULUS);
    }
}

#[test]
fn inverse_multiplier_takes_each_value_back() {
    let mut prng = PRNG::new(42);
    let mut before: u64 = 42;
    for _ in 0..10000 {
        let value = prng.next_unsigned_integer();
        let back = ((MULTIPLIER_INVERSE as u128 * value as u128) % MODULUS as u128) as u64;
        assert_eq!(back, before);
        before = value;
    }
}

#[test]
fn different_residues_have_different_successors() {
    let mut seen = std::collections::HashSet::new();
    for seed in 1u64..=50000 {
        assert!(seen.insert(PRNG::new(seed).next_unsigned_integer()));
    }
    for seed in (MODULUS - 50000)..MODULUS {
        assert!(seen.insert(PRNG::new(seed).next_unsigned_integer()));
    }
}

#[test]
fn seed_equal_to_the_modulus_stays_there() {
    let mut prng = PRNG::new(2147483647);
    assert_eq!(prng.next_unsigned_integer(), 2147483647);
    assert_eq!(prng.next_unsigned_integer(), 2147483647);
}

#[test]
fn seeds_beyond_the_modulus_are_folded_once() {
    assert_eq!(PRNG::new(2147483648).next_unsigned_integer(), 16807);
    assert_eq!(PRNG::new(4294967295).next_unsigned_integer(), 16807);
    assert_eq!(PRNG::new(4294967296).next_unsigned_integer(), 33614);
    assert_eq!(PRNG::new(1 << 63).next_unsigned_integer(), 72183367860225);
    assert_eq!(PRNG::new(u64::MAX).next_unsigned_integer(), 144371030670937);
}

#[test]
fn folded_values_are_congruent_to_the_product() {
    for seed in [2147483648u64, 4294967295, 4294967296, 1 << 40, 1 << 63, u64::MAX] {
        let value = PRNG::new(seed).next_unsigned_integer();
        assert_eq!(value % MODULUS, product_modulo(seed));
    }
}

#[test]
fn unit_floats_lie_above_zero_and_reach_at_most_one() {
    let mut prng = PRNG::new(1);
    for _ in 0..100000 {
        let unit = prng.next_unsigned_integer() as f32 / 2147483647.0;
        assert!(0.0 < unit && unit <= 1.0);
    }
    let top = 2147483646u64 as f32 / 2147483647.0;
    assert_eq!(top, 1.0);
}
