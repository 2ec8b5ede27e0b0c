use tick_math::{try_get_amount_delta, AMOUNT_EXCEEDS_MAX_U64, ARITHMETIC_OVERFLOW};

const ONE: u128 = 1 << 64;

#[test]
fn equal_prices_give_zero() {
    assert_eq!(try_get_amount_delta(ONE, ONE, 1_000_000, true), Ok(0));
    assert_eq!(try_get_amount_delta(7, 7, u128::MAX, false), Ok(0));
}

#[test]
fn order_of_prices_does_not_matter() {
    let a = 3 * ONE;
    let b = 5 * ONE + 7;
    for up in [false, true] {
        assert_eq!(
            try_get_amount_delta(a, b, 123_456_789, up),
            try_get_amount_delta(b, a, 123_456_789, up)
        );
    }
    assert_eq!(try_get_amount_delta(a, b, 123_456_789, false), Ok(16460905));
    assert_eq!(try_get_amount_delta(b, a, 123_456_789, true), Ok(16460906));
}

#[test]
fn rounding_up_adds_one_when_inexact() {
    assert_eq!(try_get_amount_delta(ONE, 3 * ONE, 1_000_000_000_000_000_000, false), Ok(666666666666666666));
    assert_eq!(try_get_amount_delta(ONE, 3 * ONE, 1_000_000_000_000_000_000, true), Ok(666666666666666667));
    assert_eq!(try_get_amount_delta(1, 3, 1, false), Ok(12297829382473034410));
    assert_eq!(try_get_amount_delta(1, 3, 1, true), Ok(12297829382473034411));
}

#[test]
fn rounding_is_equal_when_exact() {
    assert_eq!(try_get_amount_delta(1, 2, 1, false), Ok(1 << 63));
    assert_eq!(try_get_amount_delta(1, 2, 1, true), Ok(1 << 63));
}

#[test]
fn wide_intermediate_succeeds() {
    // liquidity * diff * 2^64 is 2^188, far past 128 bits.
    assert_eq!(try_get_amount_delta(ONE, 2 * ONE, 1 << 60, false), Ok(1 << 59));
}

#[test]
fn near_maximum_liquidity_fits() {
    assert_eq!(try_get_amount_delta(ONE, ONE + 1, u128::MAX, false), Ok(u64::MAX));
    assert_eq!(try_get_amount_delta(ONE, ONE + 1, u128::MAX, true), Ok(u64::MAX));
}

#[test]
fn near_maximum_liquidity_overflows() {
    assert_eq!(try_get_amount_delta(1, u128::MAX, u128::MAX, false), Err(ARITHMETIC_OVERFLOW));
}

#[test]
fn rescaling_past_256_bits_overflows() {
    // liquidity * diff fits in 256 bits; times 2^64 it does not.
    assert_eq!(try_get_amount_delta(ONE, 3 * ONE, 1 << 127, false), Err(ARITHMETIC_OVERFLOW));
}

#[test]
fn amount_past_u64_is_rejected() {
    assert_eq!(try_get_amount_delta(1, 2, 3, false), Err(AMOUNT_EXCEEDS_MAX_U64));
}

#[test]
fn rounding_up_past_u64_is_rejected() {
    assert_eq!(try_get_amount_delta(u128::MAX, ONE, ONE + 1, false), Ok(u64::MAX));
    assert_eq!(try_get_amount_delta(u128::MAX, ONE, ONE + 1, true), Err(AMOUNT_EXCEEDS_MAX_U64));
}

#[test]
fn error_codes_are_distinct() {
    assert_eq!(ARITHMETIC_OVERFLOW, 9003);
    assert_eq!(AMOUNT_EXCEEDS_MAX_U64, 9004);
}
