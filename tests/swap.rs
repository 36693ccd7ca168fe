use clmm_swap::errors::ErrorCode;
use clmm_swap::math::{sqrt_price_from_tick_index, MIN_SQRT_PRICE, Q64};
use clmm_swap::pool::{Address, Pool};
use clmm_swap::step::compute_swap_step;
use clmm_swap::swap::{split_fee, swap, swap_with_transfer_fee_extension};
use clmm_swap::tick::{apply_liquidity_net, Tick, TickArray, TickSequence, TICK_ARRAY_SIZE};
use clmm_swap::transfer_fee::TransferFeeConfig;

fn address(n: u128) -> Address {
    Address { high: 0, low: n }
}

fn pool_at(tick: i32, liquidity: u128, protocol_fee_rate: u16) -> Pool {
    Pool {
        address: address(1),
        pools_config: address(2),
        token_mint_a: address(3),
        token_vault_a: address(4),
        token_mint_b: address(5),
        token_vault_b: address(6),
        tick_spacing: 64,
        fee_rate: 3000,
        protocol_fee_rate,
        liquidity,
        sqrt_price: sqrt_price_from_tick_index(tick),
        tick_current_index: tick,
        protocol_fee_owed_a: 0,
        protocol_fee_owed_b: 0,
        fee_growth_global_a: 0,
        fee_growth_global_b: 0,
        reward_last_updated_timestamp: 0,
    }
}

fn empty_array(start: i32) -> TickArray {
    TickArray { start_tick_index: start, ticks: vec![Tick::empty(); TICK_ARRAY_SIZE] }
}

fn sequence_down(array: TickArray) -> TickSequence {
    TickSequence::new(64, array, None, None, true).unwrap()
}

#[test]
fn reference_exact_in_swap() {
    let pool = pool_at(-2816, 1_000_000_000, 0);
    let mut ticks = sequence_down(empty_array(-5632));
    let r = swap(&pool, &mut ticks, 1_000_000, 0, true, true).unwrap();
    assert_eq!(r.fee_amount, 3000);
    assert_eq!(r.amount_a, 1_000_000);
    // 997000 moves the price: k = L * 2^64; p' = ceil(k / (floor(k / p) + 997000));
    // amount_b = floor(L * (p - p') / 2^64)
    assert_eq!(pool.sqrt_price, 16024117345958124492);
    assert_eq!(r.next_sqrt_price, 16010251460765034444);
    assert_eq!(r.amount_b, 751671);
    assert_eq!(r.next_tick_index, -2834);
    assert_eq!(r.next_liquidity, 1_000_000_000);
    assert_eq!(r.next_fee_growth_global_a, 3000 * Q64 / 1_000_000_000);
    assert_eq!(r.next_fee_growth_global_b, 0);
    assert_eq!(r.protocol_fee, 0);
}

#[test]
fn protocol_fee_share_is_taken_from_the_fee() {
    let pool = pool_at(-2816, 1_000_000_000, 300);
    let mut ticks = sequence_down(empty_array(-5632));
    let r = swap(&pool, &mut ticks, 1_000_000, 0, true, true).unwrap();
    assert_eq!(r.fee_amount, 3000);
    assert_eq!(r.protocol_fee, 90);
    assert_eq!(r.next_fee_growth_global_a, 2910 * Q64 / 1_000_000_000);
}

#[test]
fn split_fee_exact_values() {
    assert_eq!(split_fee(3000, 300, 1_000_000_000), (90, 2910 * Q64 / 1_000_000_000));
    assert_eq!(split_fee(0, 2500, 7), (0, 0));
    assert_eq!(split_fee(9, 2500, 1), (2, 7 * Q64));
}

#[test]
fn price_moves_in_the_direction_of_the_swap() {
    let pool = pool_at(-2816, 1_000_000_000, 0);
    let mut down = sequence_down(empty_array(-5632));
    let r = swap(&pool, &mut down, 50_000, 0, true, true).unwrap();
    assert!(r.next_sqrt_price < pool.sqrt_price);
    let mut up = TickSequence::new(64, empty_array(-5632), None, None, false).unwrap();
    let r = swap(&pool, &mut up, 50_000, 0, true, false).unwrap();
    assert!(r.next_sqrt_price > pool.sqrt_price);
    assert!(r.next_fee_growth_global_b > 0);
    assert_eq!(r.next_fee_growth_global_a, 0);
}

#[test]
fn swap_stops_at_the_price_limit() {
    let pool = pool_at(-2816, 1_000_000_000, 0);
    let limit = pool.sqrt_price - 1_000_000_000_000;
    let mut ticks = sequence_down(empty_array(-5632));
    let r = swap(&pool, &mut ticks, 10_000_000, limit, true, true).unwrap();
    assert_eq!(r.next_sqrt_price, limit);
    assert!(r.amount_a < 10_000_000);
}

#[test]
fn exact_output_swap_delivers_the_amount() {
    let pool = pool_at(-2816, 1_000_000_000, 0);
    let mut ticks = sequence_down(empty_array(-5632));
    let r = swap(&pool, &mut ticks, 500_000, 0, false, true).unwrap();
    assert_eq!(r.amount_b, 500_000);
    assert!(r.amount_a > 500_000);
    assert!(r.fee_amount > 0);
    assert!(r.fee_amount < r.amount_a);
}

#[test]
fn zero_amount_is_refused() {
    let pool = pool_at(-2816, 1_000_000_000, 0);
    let mut ticks = sequence_down(empty_array(-5632));
    assert_eq!(swap(&pool, &mut ticks, 0, 0, true, true), Err(ErrorCode::ZeroTradableAmount));
}

#[test]
fn limit_on_the_wrong_side_is_refused() {
    let pool = pool_at(-2816, 1_000_000_000, 0);
    let mut ticks = sequence_down(empty_array(-5632));
    let above = pool.sqrt_price + 1;
    assert_eq!(swap(&pool, &mut ticks, 10, above, true, true), Err(ErrorCode::InvalidSqrtPriceLimit));
    assert_eq!(swap(&pool, &mut ticks, 10, pool.sqrt_price, true, true), Err(ErrorCode::InvalidSqrtPriceLimit));
    assert_eq!(swap(&pool, &mut ticks, 10, MIN_SQRT_PRICE - 1, true, true), Err(ErrorCode::InvalidSqrtPriceLimit));
}

#[test]
fn zero_liquidity_is_refused() {
    let pool = pool_at(-2816, 0, 0);
    let mut ticks = sequence_down(empty_array(-5632));
    assert_eq!(swap(&pool, &mut ticks, 10, 0, true, true), Err(ErrorCode::ZeroLiquidity));
}

#[test]
fn walking_past_the_loaded_ticks_is_refused() {
    let pool = pool_at(-2816, 1_000_000_000, 0);
    let mut ticks = sequence_down(empty_array(-5632));
    assert_eq!(swap(&pool, &mut ticks, 1_000_000_000, 0, true, true), Err(ErrorCode::TickSequenceExhausted));
}

#[test]
fn current_tick_outside_the_sequence_is_refused() {
    let pool = pool_at(100, 1_000_000_000, 0);
    let mut ticks = sequence_down(empty_array(-5632));
    assert_eq!(swap(&pool, &mut ticks, 10, 0, true, true), Err(ErrorCode::InvalidTickArraySequence));
}

#[test]
fn crossing_a_tick_downward_subtracts_its_net() {
    let pool = pool_at(-2816, 1_000_000_000, 0);
    let mut array = empty_array(-5632);
    // slot 43 is tick -5632 + 43 * 64 = -2880
    array.ticks[43] = Tick {
        liquidity_net: 500_000_000,
        liquidity_gross: 500_000_000,
        fee_growth_outside_a: 0,
        fee_growth_outside_b: 0,
    };
    let mut ticks = sequence_down(array);
    let r = swap(&pool, &mut ticks, 5_000_000, 0, true, true).unwrap();
    assert_eq!(r.next_liquidity, 500_000_000);
    assert!(r.next_tick_index < -2880);
    assert!(r.next_sqrt_price < sqrt_price_from_tick_index(-2880));
    let crossed = ticks.ticks[43];
    assert!(crossed.fee_growth_outside_a > 0);
    assert!(crossed.fee_growth_outside_a < r.next_fee_growth_global_a);
    assert_eq!(crossed.liquidity_net, 500_000_000);
}

#[test]
fn crossing_a_tick_upward_adds_its_net() {
    let pool = pool_at(-2816, 1_000_000_000, 0);
    let mut array = empty_array(-5632);
    // slot 45 is tick -2752
    array.ticks[45] = Tick {
        liquidity_net: -400_000_000,
        liquidity_gross: 400_000_000,
        fee_growth_outside_a: 0,
        fee_growth_outside_b: 0,
    };
    let mut ticks = TickSequence::new(64, array, None, None, false).unwrap();
    let r = swap(&pool, &mut ticks, 5_000_000, 0, true, false).unwrap();
    assert_eq!(r.next_liquidity, 600_000_000);
    assert!(r.next_tick_index >= -2752);
}

#[test]
fn apply_liquidity_net_by_direction() {
    assert_eq!(apply_liquidity_net(100, 30, false), Ok(130));
    assert_eq!(apply_liquidity_net(100, 30, true), Ok(70));
    assert_eq!(apply_liquidity_net(100, -30, true), Ok(130));
    assert_eq!(apply_liquidity_net(10, 30, true), Err(ErrorCode::MathOverflow));
    assert_eq!(apply_liquidity_net(u128::MAX, 1, false), Err(ErrorCode::MathOverflow));
    assert_eq!(apply_liquidity_net(u128::MAX, i128::MIN, true), Err(ErrorCode::MathOverflow));
    assert_eq!(apply_liquidity_net(0, i128::MIN, true), Ok(1u128 << 127));
}

#[test]
fn swap_step_exact_in_within_range() {
    let price = sqrt_price_from_tick_index(-2816);
    let step = compute_swap_step(1_000_000, 3000, 1_000_000_000, price, MIN_SQRT_PRICE, true, true).unwrap();
    assert_eq!(step.amount_in, 997_000);
    assert_eq!(step.fee_amount, 3000);
    assert_eq!(step.amount_out, 751671);
    assert_eq!(step.next_sqrt_price, 16010251460765034444);
}

#[test]
fn swap_step_exact_in_reaching_the_target() {
    // 1000 of B moves the price by 1000 * 2^64 / L
    let step = compute_swap_step(1_000_000, 3000, 1_000_000, Q64, Q64 + Q64 / 1000, true, false).unwrap();
    assert_eq!(step.next_sqrt_price, Q64 + Q64 / 1000);
    assert_eq!(step.amount_in, 1000);
    // ceil(1000 * 3000 / 997000) = 4
    assert_eq!(step.fee_amount, 4);
}

#[test]
fn sequence_of_three_arrays_downward() {
    let seq = TickSequence::new(
        64,
        empty_array(0),
        Some(empty_array(-5632)),
        Some(empty_array(-11264)),
        true,
    )
    .unwrap();
    assert_eq!(seq.start_tick_index, -11264);
    assert_eq!(seq.ticks.len(), 3 * TICK_ARRAY_SIZE);
}

#[test]
fn sequence_with_a_gap_is_refused() {
    let r = TickSequence::new(64, empty_array(0), Some(empty_array(-11264)), None, true);
    assert!(matches!(r, Err(ErrorCode::InvalidTickArraySequence)));
    let short = TickArray { start_tick_index: 0, ticks: vec![Tick::empty(); 3] };
    assert!(matches!(TickSequence::new(64, short, None, None, true), Err(ErrorCode::InvalidTickArraySequence)));
}

#[test]
fn write_back_copies_the_window() {
    let mut array = empty_array(-5632);
    array.ticks[3] = Tick { liquidity_net: 5, liquidity_gross: 5, fee_growth_outside_a: 1, fee_growth_outside_b: 2 };
    let mut seq = TickSequence::new(64, array, None, None, false).unwrap();
    seq.ticks[3].fee_growth_outside_a = 99;
    let mut target = empty_array(-5632);
    seq.write_back(&mut target);
    assert_eq!(target.ticks[3].fee_growth_outside_a, 99);
    let mut other = empty_array(0);
    seq.write_back(&mut other);
    assert_eq!(other.ticks[3], Tick::empty());
}

#[test]
fn transfer_fee_is_taken_from_exact_input() {
    let pool = pool_at(-2816, 1_000_000_000, 0);
    let mut plain = sequence_down(empty_array(-5632));
    let net = swap(&pool, &mut plain, 990_000, 0, true, true).unwrap();
    let one_percent = Some(TransferFeeConfig { basis_points: 100, maximum_fee: u64::MAX });
    let mut ticks = sequence_down(empty_array(-5632));
    let r = swap_with_transfer_fee_extension(&pool, one_percent, None, &mut ticks, 1_000_000, 0, true, true).unwrap();
    assert_eq!(r.amount_a, 1_000_000);
    assert_eq!(r.amount_b, net.amount_b);
}
