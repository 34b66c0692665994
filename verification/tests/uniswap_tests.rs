use volatility_estimator::data_sources::dex::uniswap::{
    address_to_string, swap_side, u256_is_negative, u256_to_string,
};

fn word(v: u128) -> [u8; 32] {
    let mut w = [0u8; 32];
    w[16..].copy_from_slice(&v.to_be_bytes());
    w
}

fn negative(v: u128) -> [u8; 32] {
    // two's complement of v over 256 bits
    let mut w = word(v);
    for b in w.iter_mut() {
        *b = !*b;
    }
    let mut carry = 1u16;
    for b in w.iter_mut().rev() {
        let s = *b as u16 + carry;
        *b = s as u8;
        carry = s >> 8;
    }
    w
}

#[test]
fn sign_is_the_top_bit() {
    assert!(!u256_is_negative(&word(5)));
    assert!(u256_is_negative(&negative(5)));
    let mut top = [0u8; 32];
    top[0] = 0x80;
    assert!(u256_is_negative(&top));
    top[0] = 0x7f;
    assert!(!u256_is_negative(&top));
}

#[test]
fn amounts_with_decimals() {
    assert_eq!(u256_to_string(&word(1_234_567), 6), "1.234567");
    assert_eq!(u256_to_string(&word(5), 6), "0.000005");
    assert_eq!(u256_to_string(&word(123_456), 6), "0.123456");
    assert_eq!(u256_to_string(&word(0), 6), "0.000000");
    assert_eq!(u256_to_string(&word(1_000_000_000_000_000_000), 18), "1.000000000000000000");
}

#[test]
fn amounts_without_decimals_get_a_zero_fraction() {
    assert_eq!(u256_to_string(&word(123), 0), "123.0");
    assert_eq!(u256_to_string(&word(0), 0), "0.0");
}

#[test]
fn negative_amounts_are_rendered_by_magnitude() {
    assert_eq!(u256_to_string(&negative(2_500_000), 6), "2.500000");
    assert_eq!(u256_to_string(&negative(1), 6), "0.000001");
    let mut min = [0u8; 32];
    min[0] = 0x80;
    assert_eq!(
        u256_to_string(&min, 0),
        "57896044618658097711785492504343953926634992332820282019728792003956564819968.0"
    );
}

#[test]
fn addresses_are_lower_case_hex() {
    let mut a = [0u8; 20];
    a[0] = 0x88;
    a[1] = 0xe6;
    a[19] = 0x0f;
    let s = address_to_string(&a);
    assert_eq!(s, "0x88e600000000000000000000000000000000000f");
    assert_eq!(s.len(), 42);
}

#[test]
fn swap_side_follows_the_second_amount() {
    assert_eq!(swap_side(&word(10), &negative(3)), "sell");
    assert_eq!(swap_side(&negative(10), &word(3)), "buy");
}
