use rust_decimal::Decimal;
use volatility_estimator::decimal::{
    checked_add, checked_div, checked_ln, checked_mul, checked_sub, display, Amount, MAX_MANTISSA,
};

fn dec(a: Amount) -> Decimal {
    Decimal::from_i128_with_scale(a.mantissa, a.scale)
}

fn amt(m: i128, s: u32) -> Amount {
    Amount::new(m, s).unwrap()
}

#[test]
fn new_accepts_exactly_decimal_parts() {
    assert!(Amount::new(MAX_MANTISSA, 28).is_some());
    assert!(Amount::new(-MAX_MANTISSA, 0).is_some());
    assert!(Amount::new(MAX_MANTISSA + 1, 0).is_none());
    assert!(Amount::new(-MAX_MANTISSA - 1, 0).is_none());
    assert!(Amount::new(1, 29).is_none());
}

#[test]
fn zero_and_counts() {
    let z = Amount::zero();
    assert_eq!((z.mantissa, z.scale), (0, 0));
    assert!(z.is_zero());
    let c = Amount::from_count(42);
    assert_eq!((c.mantissa, c.scale), (42, 0));
    assert!(!c.is_zero());
}

#[test]
fn arithmetic_matches_rust_decimal() {
    let a = amt(15, 1);
    let b = amt(225, 2);
    assert_eq!(dec(checked_add(a, b).unwrap()), Decimal::from_i128_with_scale(375, 2));
    assert_eq!(dec(checked_sub(a, b).unwrap()), Decimal::from_i128_with_scale(-75, 2));
    assert_eq!(dec(checked_mul(a, b).unwrap()), Decimal::from_i128_with_scale(3375, 3));
    assert_eq!(dec(checked_div(amt(3, 0), amt(4, 0)).unwrap()), Decimal::from_i128_with_scale(75, 2));
}

#[test]
fn overflow_and_division_by_zero_give_none() {
    let max = amt(MAX_MANTISSA, 0);
    assert!(checked_add(max, max).is_none());
    assert!(checked_mul(max, max).is_none());
    assert!(checked_div(amt(1, 0), Amount::zero()).is_none());
}

#[test]
fn logarithms() {
    assert_eq!(dec(checked_ln(amt(1, 0)).unwrap()), Decimal::ZERO);
    assert!(checked_ln(Amount::zero()).is_none());
    assert!(checked_ln(amt(-1, 0)).is_none());
}

#[test]
fn display_places_the_point_before_the_scale_digits() {
    assert_eq!(display(amt(10050, 2)), "100.50");
    assert_eq!(display(amt(-5, 3)), "-0.005");
    assert_eq!(display(amt(0, 0)), "0");
    assert_eq!(display(amt(0, 2)), "0.00");
    assert_eq!(display(amt(123, 0)), "123");
    assert_eq!(display(amt(-123, 3)), "-0.123");
    assert_eq!(display(amt(79228162514264337593543950335, 28)), "7.9228162514264337593543950335");
}
