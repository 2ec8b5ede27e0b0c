//! Token amount that a liquidity change moves between two square-root prices
//! in Q64.64, computed with 256-bit intermediates.
use vstd::prelude::*;
use crate::wide::{Wide, checked_add, checked_mul, div_rem, to_u64, wide_limit};

verus! {

/// Error code returned by `try_get_amount_delta`.
pub type ErrorCode = u16;

/// An intermediate product does not fit in 256 bits.
pub const ARITHMETIC_OVERFLOW: ErrorCode = 9003;

/// The amount itself does not fit in a `u64`.
pub const AMOUNT_EXCEEDS_MAX_U64: ErrorCode = 9004;

/// 2^64: one in Q64.64.
pub const Q64_ONE: u128 = 0x1_0000_0000_0000_0000;

/// The distance between two square-root prices.
pub open spec fn price_gap(a: u128, b: u128) -> int {
    if a < b {
        b - a
    } else {
        a - b
    }
}

/// `liquidity * gap * 2^64`: the numerator of the amount.
pub open spec fn scaled_numerator(a: u128, b: u128, liquidity: u128) -> int {
    liquidity * price_gap(a, b) * Q64_ONE
}

/// `a * b`: the denominator of the amount.
pub open spec fn price_product(a: u128, b: u128) -> int {
    a * b
}

/// The exact amount, `scaled_numerator / price_product`, rounded up or down.
pub open spec fn amount_delta(a: u128, b: u128, liquidity: u128, round_up: bool) -> int {
    let n = scaled_numerator(a, b, liquidity);
    let d = price_product(a, b);
    if round_up && n % d != 0 {
        n / d + 1
    } else {
        n / d
    }
}

/// What `try_get_amount_delta` returns: an overflow error where the scaled
/// numerator does not fit in 256 bits, else the amount where it fits in a
/// `u64`, else the amount error.
pub open spec fn amount_delta_result(a: u128, b: u128, liquidity: u128, round_up: bool) -> Result<
    u64,
    ErrorCode,
> {
    if scaled_numerator(a, b, liquidity) >= wide_limit() {
        Err(ARITHMETIC_OVERFLOW)
    } else if amount_delta(a, b, liquidity, round_up) > u64::MAX {
        Err(AMOUNT_EXCEEDS_MAX_U64)
    } else {
        Ok(amount_delta(a, b, liquidity, round_up) as u64)
    }
}

/// The two prices, lower first.
fn order_prices(a: u128, b: u128) -> (r: (u128, u128))
    ensures
        r.0 <= r.1,
        (r.0 == a && r.1 == b) || (r.0 == b && r.1 == a),
{
    if a < b {
        (a, b)
    } else {
        (b, a)
    }
}

/// The amount of token that `liquidity` moves between the two square-root
/// prices, given in either order: `liquidity * (upper - lower) * 2^64 /
/// (lower * upper)`, rounded up where `round_up` is set and down otherwise.
pub fn try_get_amount_delta(sqrt_price_1: u128, sqrt_price_2: u128, liquidity: u128, round_up: bool) -> (r: Result<u64, ErrorCode>)
    requires
        sqrt_price_1 > 0,
        sqrt_price_2 > 0,
    ensures
        r == amount_delta_result(sqrt_price_1, sqrt_price_2, liquidity, round_up),
{
    let (sqrt_price_lower, sqrt_price_upper) = order_prices(sqrt_price_1, sqrt_price_2);
    let sqrt_price_diff = sqrt_price_upper - sqrt_price_lower;
    proof {
        lemma_products_fit(liquidity, sqrt_price_diff);
        lemma_products_fit(sqrt_price_lower, sqrt_price_upper);
        assert(price_gap(sqrt_price_1, sqrt_price_2) == sqrt_price_diff);
        assert(price_product(sqrt_price_1, sqrt_price_2) == sqrt_price_lower * sqrt_price_upper)
            by (nonlinear_arith)
            requires
                (sqrt_price_lower == sqrt_price_1 && sqrt_price_upper == sqrt_price_2) || (
                sqrt_price_lower == sqrt_price_2 && sqrt_price_upper == sqrt_price_1),
        {
        }
    }
    let product = match checked_mul(Wide::from_u128(liquidity), Wide::from_u128(sqrt_price_diff)) {
        Some(p) => p,
        None => return Err(ARITHMETIC_OVERFLOW),
    };
    // Rescaling by 2^64 is a checked multiply, so that a product that would
    // lose bits past 256 is reported instead of cut short.
    let numerator = match checked_mul(product, Wide::from_u128(Q64_ONE)) {
        Some(p) => p,
        None => return Err(ARITHMETIC_OVERFLOW),
    };
    let denominator = match checked_mul(
        Wide::from_u128(sqrt_price_lower),
        Wide::from_u128(sqrt_price_upper),
    ) {
        Some(p) => p,
        None => return Err(ARITHMETIC_OVERFLOW),
    };
    proof {
        assert(denominator.value() > 0) by (nonlinear_arith)
            requires
                denominator.value() == sqrt_price_lower * sqrt_price_upper,
                sqrt_price_lower > 0,
                sqrt_price_upper > 0,
        {
        }
    }
    let (quotient, remainder) = div_rem(numerator, denominator);
    let result = if round_up && !remainder.is_zero() {
        proof {
            lemma_quotient_successor_fits(numerator.value(), denominator.value());
        }
        match checked_add(quotient, Wide::from_u128(1)) {
            Some(q) => q,
            None => return Err(ARITHMETIC_OVERFLOW),
        }
    } else {
        quotient
    };
    match to_u64(result) {
        Some(v) => Ok(v),
        None => Err(AMOUNT_EXCEEDS_MAX_U64),
    }
}

/// The amount does not depend on the order in which the two prices are given.
pub proof fn lemma_amount_delta_symmetric(a: u128, b: u128, liquidity: u128, round_up: bool)
    ensures
        amount_delta_result(a, b, liquidity, round_up) == amount_delta_result(
            b,
            a,
            liquidity,
            round_up,
        ),
{
    assert(price_product(a, b) == price_product(b, a)) by (nonlinear_arith);
}

/// Between equal prices no amount moves, whatever the liquidity and rounding.
pub proof fn lemma_amount_delta_equal_prices(p: u128, liquidity: u128, round_up: bool)
    requires
        p > 0,
    ensures
        amount_delta_result(p, p, liquidity, round_up) == Ok::<u64, ErrorCode>(0),
{
    assert(price_product(p, p) > 0) by (nonlinear_arith)
        requires
            p > 0,
    {
    }
    assert(scaled_numerator(p, p, liquidity) == 0) by (nonlinear_arith)
        requires
            price_gap(p, p) == 0,
    {
    }
    let d = price_product(p, p);
    assert(0int / d == 0 && 0int % d == 0) by (nonlinear_arith)
        requires
            d > 0,
    {
    }
    assert(amount_delta(p, p, liquidity, round_up) == 0);
    lemma_products_fit(0, 0);
}

/// Rounding up never gives less than rounding down, and gives the same
/// amount exactly when the division leaves no remainder; where both calls
/// succeed the same holds of the amounts they return.
pub proof fn lemma_amount_delta_rounding(a: u128, b: u128, liquidity: u128)
    requires
        a > 0,
        b > 0,
    ensures
        amount_delta(a, b, liquidity, true) >= amount_delta(a, b, liquidity, false),
        (amount_delta(a, b, liquidity, true) == amount_delta(a, b, liquidity, false)) <==> (
        scaled_numerator(a, b, liquidity) % price_product(a, b) == 0),
        amount_delta_result(a, b, liquidity, true) is Ok && amount_delta_result(
            a,
            b,
            liquidity,
            false,
        ) is Ok ==> amount_delta_result(a, b, liquidity, true)->Ok_0 >= amount_delta_result(
            a,
            b,
            liquidity,
            false,
        )->Ok_0 && (amount_delta_result(a, b, liquidity, true)->Ok_0 == amount_delta_result(
            a,
            b,
            liquidity,
            false,
        )->Ok_0 <==> scaled_numerator(a, b, liquidity) % price_product(a, b) == 0),
{
    let n = scaled_numerator(a, b, liquidity);
    let d = price_product(a, b);
    assert(d > 0 && n >= 0) by (nonlinear_arith)
        requires
            a > 0,
            b > 0,
            liquidity >= 0,
            price_gap(a, b) >= 0,
            n == liquidity * price_gap(a, b) * Q64_ONE,
            d == a * b,
    {
    }
    assert(n / d >= 0) by (nonlinear_arith)
        requires
            d > 0,
            n >= 0,
    {
    }
}

/// Two 128-bit factors have a product below 2^256.
proof fn lemma_products_fit(x: u128, y: u128)
    ensures
        0 <= x * y < wide_limit(),
{
    assert(0 <= x * y < (u128::MAX as int + 1) * (u128::MAX as int + 1)) by (nonlinear_arith)
        requires
            0 <= x <= u128::MAX,
            0 <= y <= u128::MAX,
    {
    }
}

/// Where a division below 2^256 leaves a remainder, one more than the
/// quotient is still below 2^256.
proof fn lemma_quotient_successor_fits(n: int, d: int)
    requires
        0 <= n < wide_limit(),
        d > 0,
        n % d != 0,
    ensures
        n / d + 1 < wide_limit(),
{
    vstd::arithmetic::div_mod::lemma_fundamental_div_mod(n, d);
    assert(n / d + 1 <= n) by (nonlinear_arith)
        requires
            n == d * (n / d) + n % d,
            0 < n % d < d,
            d > 0,
            n >= 0,
    {
    }
}

} // verus!
