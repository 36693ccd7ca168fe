use clmm_swap::errors::ErrorCode;
use clmm_swap::math::{
    div_ceil_u128, get_amount_delta_a, get_amount_delta_b, get_next_sqrt_price,
    sqrt_price_from_tick_index, tick_index_from_sqrt_price, MAX_SQRT_PRICE, MAX_TICK_INDEX,
    MIN_SQRT_PRICE, MIN_TICK_INDEX, Q64,
};

#[test]
fn div_ceil_rounds_up_only_with_a_remainder() {
    assert_eq!(div_ceil_u128(10, 5), 2);
    assert_eq!(div_ceil_u128(11, 5), 3);
    assert_eq!(div_ceil_u128(0, 7), 0);
    assert_eq!(div_ceil_u128(u128::MAX, 2), u128::MAX / 2 + 1);
}

#[test]
fn tick_zero_is_price_one() {
    assert_eq!(sqrt_price_from_tick_index(0), Q64);
}

#[test]
fn tick_prices_at_the_ends_of_the_domain() {
    assert_eq!(sqrt_price_from_tick_index(MIN_TICK_INDEX), MIN_SQRT_PRICE);
    assert_eq!(sqrt_price_from_tick_index(MAX_TICK_INDEX), MAX_SQRT_PRICE);
    assert_eq!(sqrt_price_from_tick_index(-1), 18445821805675392311);
    assert_eq!(sqrt_price_from_tick_index(1), 18447666387855959851);
}

#[test]
fn tick_prices_increase_with_the_tick() {
    let mut previous = sqrt_price_from_tick_index(-3000);
    for t in -2999..3000 {
        let p = sqrt_price_from_tick_index(t);
        assert!(p > previous);
        previous = p;
    }
}

#[test]
fn tick_index_from_price_inverts_the_tick_price() {
    for t in [-443636, -100000, -2816, -1, 0, 1, 64, 2816, 100000, 443635] {
        let p = sqrt_price_from_tick_index(t);
        assert_eq!(tick_index_from_sqrt_price(p), t);
        assert_eq!(tick_index_from_sqrt_price(p + 1), t);
    }
    assert_eq!(tick_index_from_sqrt_price(sqrt_price_from_tick_index(5) - 1), 4);
    assert_eq!(tick_index_from_sqrt_price(0), MIN_TICK_INDEX);
    assert_eq!(tick_index_from_sqrt_price(u128::MAX), MAX_TICK_INDEX);
}

#[test]
fn amount_b_delta_rounds_by_direction() {
    // liquidity 3 over a quarter of one unit of price: 0.75 of B
    let lower = Q64;
    let upper = Q64 + Q64 / 4;
    assert_eq!(get_amount_delta_b(lower, upper, 3, true), Ok(1));
    assert_eq!(get_amount_delta_b(lower, upper, 3, false), Ok(0));
    assert_eq!(get_amount_delta_b(lower, upper, 8, false), Ok(2));
}

#[test]
fn amount_b_delta_overflow_errors() {
    assert_eq!(get_amount_delta_b(0, u128::MAX, 2, true), Err(ErrorCode::MathOverflow));
    // (2^64 - 1) * (2^64 + 1) = 2^128 - 1: rounded up it is 2^64, one past u64
    assert_eq!(get_amount_delta_b(0, Q64 + 1, Q64 - 1, true), Err(ErrorCode::TokenMaxExceeded));
    assert_eq!(get_amount_delta_b(0, Q64 + 1, Q64 - 1, false), Ok(u64::MAX));
}

#[test]
fn amount_a_delta_uses_virtual_reserves() {
    // liquidity 1000 between prices 1 and 2 (sqrt 1 and sqrt 2 as 1x and 2x):
    // reserves 1000 and 500
    assert_eq!(get_amount_delta_a(Q64, 2 * Q64, 1000, true), Ok(500));
    assert_eq!(get_amount_delta_a(Q64, 2 * Q64, 1000, false), Ok(500));
    // at sqrt prices 1 and 3 the reserves are 1000 and 333.33: rounding up
    // takes 1000 - 333, rounding down 1000 - 334
    assert_eq!(get_amount_delta_a(Q64, 3 * Q64, 1000, true), Ok(667));
    assert_eq!(get_amount_delta_a(Q64, 3 * Q64, 1000, false), Ok(666));
    assert_eq!(get_amount_delta_a(Q64, 2 * Q64, Q64, true), Err(ErrorCode::MathOverflow));
}

#[test]
fn next_price_from_input_b_moves_up() {
    // 500 of B into liquidity 1000 raises the sqrt price by half a unit
    let next = get_next_sqrt_price(Q64, 4 * Q64, 1000, 500, true, false);
    assert_eq!(next, Ok(Q64 + Q64 / 2));
}

#[test]
fn next_price_never_passes_the_target() {
    let next = get_next_sqrt_price(Q64, Q64 + 10, 1000, 500, true, false);
    assert_eq!(next, Ok(Q64 + 10));
    let down = get_next_sqrt_price(2 * Q64, Q64 + 5, 1000, 1_000_000, true, true);
    assert_eq!(down, Ok(Q64 + 5));
}

#[test]
fn next_price_from_input_a_moves_down() {
    // reserve of A at sqrt price 2 with liquidity 1000 is 500; 500 more halves the sqrt price
    let next = get_next_sqrt_price(2 * Q64, Q64 / 2, 1000, 500, true, true);
    assert_eq!(next, Ok(Q64));
}

#[test]
fn next_price_from_output_b_moves_down() {
    let next = get_next_sqrt_price(2 * Q64, 0, 1000, 500, false, true);
    assert_eq!(next, Ok(Q64 + Q64 / 2));
}

#[test]
fn next_price_from_output_a_moves_up() {
    // reserve 1000 at sqrt price 1; taking 500 out doubles the sqrt price
    let next = get_next_sqrt_price(Q64, 4 * Q64, 1000, 500, false, false);
    assert_eq!(next, Ok(2 * Q64));
}

#[test]
fn next_price_overflow_on_token_a_side() {
    let next = get_next_sqrt_price(Q64, Q64 / 2, Q64, 10, true, true);
    assert_eq!(next, Err(ErrorCode::MathOverflow));
}
