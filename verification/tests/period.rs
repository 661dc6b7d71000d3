use prng::lehmer::{MODULUS, MULTIPLIER, PERIOD};
use prng::PRNG;

/// `MULTIPLIER` to the power `exponent`, modulo `MODULUS`.
fn power(exponent: u64) -> u64 {
    let mut result: u128 = 1;
    let mut square: u128 = MULTIPLIER as u128;
    let mut rest = exponent;
    while rest > 0 {
        if rest & 1 == 1 {
            result = result * square % MODULUS as u128;
        }
        square = square * square % MODULUS as u128;
        rest >>= 1;
    }
    result as u64
}

#[test]
fn full_period_integer_check() {
    let mut prng = PRNG::new(1);
    // The reference: the whole product in 64 bits, its part above bit 31
    // added to the part below, and the modulus taken off once.
    let mut reference: u64 = 1;

    for _ in 1..2147483648 as u64 {
        let product = reference * 16807;
        reference = (product >> 31) + (product & 0x7FFFFFFF);
        if reference >= 2147483647 {
            reference -= 2147483647;
        }
        assert_eq!(reference, prng.next_unsigned_integer());
    }
}

#[test]
fn full_period_returns_to_the_seed_and_not_before() {
    // The cycle is walked in six parts at once, each from where the part
    // before it ends.
    let part: u64 = PERIOD / 6;
    assert_eq!(part * 6, PERIOD);
    let mut a = PRNG::new(1);
    let mut b = PRNG::new(power(part));
    let mut c = PRNG::new(power(2 * part));
    let mut d = PRNG::new(power(3 * part));
    let mut e = PRNG::new(power(4 * part));
    let mut f = PRNG::new(power(5 * part));
    let mut step: u64 = 1;
    while step < part {
        let at_a = a.next_unsigned_integer() == 1;
        let at_b = b.next_unsigned_integer() == 1;
        let at_c = c.next_unsigned_integer() == 1;
        let at_d = d.next_unsigned_integer() == 1;
        let at_e = e.next_unsigned_integer() == 1;
        let at_f = f.next_unsigned_integer() == 1;
        assert!(!(at_a | at_b | at_c | at_d | at_e | at_f));
        step += 1;
    }
    assert_eq!(a.next_unsigned_integer(), power(part));
    assert_eq!(b.next_unsigned_integer(), power(2 * part));
    assert_eq!(c.next_unsigned_integer(), power(3 * part));
    assert_eq!(d.next_unsigned_integer(), power(4 * part));
    assert_eq!(e.next_unsigned_integer(), power(5 * part));
    assert_eq!(f.next_unsigned_integer(), 1);
    assert_eq!(f.next_unsigned_integer(), 16807);
}

#[test]
fn period_is_the_product_of_its_prime_factors() {
    assert_eq!(PERIOD, MODULUS - 1);
    assert_eq!(PERIOD, 2 * 3 * 3 * 7 * 11 * 31 * 151 * 331);
}

#[test]
fn multiplier_has_the_period_as_its_order() {
    assert_eq!(power(PERIOD), 1);
    assert_eq!(power(PERIOD / 2), 2147483646);
    assert_eq!(power(PERIOD / 3), 634005911);
    assert_eq!(power(PERIOD / 7), 1600955193);
    assert_eq!(power(PERIOD / 11), 298192073);
    assert_eq!(power(PERIOD / 31), 16384);
    assert_eq!(power(PERIOD / 151), 1013763951);
    assert_eq!(power(PERIOD / 331), 759513457);
}

#[test]
fn steps_multiply_by_powers_of_the_multiplier() {
    let mut prng = PRNG::new(1);
    for k in 1..=5000u64 {
        assert_eq!(prng.next_unsigned_integer(), power(k));
    }
    let mut other = PRNG::new(31337);
    for k in 1..=5000u64 {
        let expected = (31337u128 * power(k) as u128 % MODULUS as u128) as u64;
        assert_eq!(other.next_unsigned_integer(), expected);
    }
}

#[test]
fn no_state_comes_twice_in_a_million_steps() {
    let mut seen = std::collections::HashSet::new();
    let mut prng = PRNG::new(1);
    for _ in 0..1000000 {
        assert!(seen.insert(prng.next_unsigned_integer()));
    }
}
