use prng::c_api::{next_unsigned_integer, prng_destroy, prng_new, Handle};
use prng::PRNG;

#[test]
fn new_handle_is_not_null() {
    let handle = prng_new(7);
    assert!(handle.is_some());
}

#[test]
fn new_handle_owns_a_generator_at_the_seed() {
    let handle = prng_new(7);
    assert_eq!(handle.unwrap().current_seed(), 7);
}

#[test]
fn new_handle_sanitizes_a_zero_seed() {
    let mut handle = prng_new(0);
    assert_eq!(handle.as_ref().unwrap().current_seed(), 1);
    assert_eq!(next_unsigned_integer(&mut handle), 16807);
}

#[test]
fn destroy_of_a_null_handle_does_nothing() {
    let mut handle: Handle = None;
    prng_destroy(&mut handle);
    assert!(handle.is_none());
}

#[test]
fn create_then_destroy_leaves_the_handle_null() {
    let mut handle = prng_new(1);
    prng_destroy(&mut handle);
    assert!(handle.is_none());
}

#[test]
fn destroy_of_a_destroyed_handle_does_nothing() {
    let mut handle = prng_new(1);
    prng_destroy(&mut handle);
    prng_destroy(&mut handle);
    assert!(handle.is_none());
}

#[test]
fn handle_returns_the_designated_sequence() {
    let expected_sequence: [u64; 10] = [
        16807, 282475249, 1622650073, 984943658, 1144108930, 470211272, 101027544, 1457850878,
        1458777923, 2007237709,
    ];
    let mut handle = prng_new(1);
    for expected in expected_sequence {
        assert_eq!(next_unsigned_integer(&mut handle), expected);
        assert!(handle.is_some());
    }
    prng_destroy(&mut handle);
}

#[test]
fn handle_and_generator_agree() {
    let mut handle = prng_new(987654321);
    let mut prng = PRNG::new(987654321);
    for _ in 0..10000 {
        assert_eq!(next_unsigned_integer(&mut handle), prng.next_unsigned_integer());
        assert_eq!(handle.as_ref().unwrap().current_seed(), prng.current_seed());
    }
    prng_destroy(&mut handle);
    assert!(handle.is_none());
}

#[test]
fn handles_do_not_share_state() {
    let mut first = prng_new(1);
    let mut second = prng_new(1);
    assert_eq!(next_unsigned_integer(&mut first), 16807);
    assert_eq!(next_unsigned_integer(&mut first), 282475249);
    assert_eq!(next_unsigned_integer(&mut second), 16807);
    prng_destroy(&mut first);
    assert_eq!(next_unsigned_integer(&mut second), 282475249);
    prng_destroy(&mut second);
}

#[test]
fn many_handles_are_made_and_released() {
    for seed in 0..10000u64 {
        let mut handle = prng_new(seed);
        assert!(handle.is_some());
        prng_destroy(&mut handle);
        assert!(handle.is_none());
    }
}
