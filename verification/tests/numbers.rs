use rand::Rng;
use service_runner::numbers::{
    useless_addition, useless_bool_chain, useless_loop, useless_multiplication,
    useless_random_operation, useless_recursion,
};

#[test]
fn useless_addition_doubles_its_first_argument() {
    assert_eq!(useless_addition(0, 0), 0);
    assert_eq!(useless_addition(1, 2), 2);
    assert_eq!(useless_addition(21, -1000), 42);
    assert_eq!(useless_addition(-7, 7), -14);
    assert_eq!(useless_addition(5, i64::MAX - 5), 10);
}

#[test]
fn useless_addition_reaches_the_ends_of_the_range() {
    let half = i64::MAX / 2;
    assert_eq!(useless_addition(half, 0), i64::MAX - 1);
    assert_eq!(useless_addition(i64::MIN / 2, 0), i64::MIN);
    assert_eq!(useless_addition(half, half), i64::MAX - 1);
}

#[test]
fn useless_multiplication_multiplies() {
    assert_eq!(useless_multiplication(0, 0), 0);
    assert_eq!(useless_multiplication(6, 7), 42);
    assert_eq!(useless_multiplication(-6, 7), -42);
    assert_eq!(useless_multiplication(-6, -7), 42);
    assert_eq!(useless_multiplication(i64::MAX, 1), i64::MAX);
    assert_eq!(useless_multiplication(i64::MIN, 1), i64::MIN);
    assert_eq!(useless_multiplication(3037000499, 3037000499), 9223372030926249001);
    assert_eq!(useless_multiplication(i64::MAX, 0), 0);
}

#[test]
fn useless_loop_ends_at_zero() {
    assert_eq!(useless_loop(0), 0);
    assert_eq!(useless_loop(1), 0);
    assert_eq!(useless_loop(10), 0);
    assert_eq!(useless_loop(100_000), 0);
}

#[test]
fn useless_recursion_ends_at_zero() {
    assert_eq!(useless_recursion(0), 0);
    assert_eq!(useless_recursion(1), 0);
    assert_eq!(useless_recursion(1000), 0);
}

#[test]
fn useless_bool_chain_is_always_true() {
    assert!(useless_bool_chain(false, false));
    assert!(useless_bool_chain(false, true));
    assert!(useless_bool_chain(true, false));
    assert!(useless_bool_chain(true, true));
}

#[test]
fn useless_random_operation_answers_forty_two() {
    for _ in 0..1000 {
        assert_eq!(useless_random_operation(), 42);
    }
}

#[test]
fn a_number_drawn_from_a_range_lies_in_the_range() {
    let mut rng = rand::thread_rng();
    let mut seen_low = false;
    let mut seen_high = false;
    for _ in 0..100_000 {
        let drawn: i32 = rng.gen_range(0..1000);
        assert!((0..1000).contains(&drawn));
        seen_low |= drawn < 100;
        seen_high |= drawn >= 900;
    }
    assert!(seen_low && seen_high);
    for _ in 0..1000 {
        let drawn: i32 = rng.gen_range(-5..-4);
        assert_eq!(drawn, -5);
    }
}
