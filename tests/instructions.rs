use clmm_swap::errors::ErrorCode;
use clmm_swap::instructions::collect_protocol_fees::{self, CollectProtocolFeesV2, ProtocolFeeTransfers};
use clmm_swap::instructions::delete_token_badge::{self, DeleteTokenBadge};
use clmm_swap::instructions::initialize_config_extension::{self, InitializeConfigExtension};
use clmm_swap::instructions::swap::{self as swap_instruction, Swap};
use clmm_swap::instructions::two_hop_swap::{self, Mint, TwoHopSwapV2};
use clmm_swap::math::sqrt_price_from_tick_index;
use clmm_swap::pool::{Address, Pool};
use clmm_swap::state::config_extension::PoolsConfigExtension;
use clmm_swap::state::fee_tier::FeeTier;
use clmm_swap::swap::swap;
use clmm_swap::tick::{Tick, TickArray, TickSequence, TICK_ARRAY_SIZE};
use clmm_swap::transfer_fee::{
    calculate_transfer_fee_excluded_amount, calculate_transfer_fee_included_amount, TransferFeeConfig,
};

fn address(n: u128) -> Address {
    Address { high: 7, low: n }
}

fn pool(id: u128, mint_a: u128, mint_b: u128) -> Pool {
    Pool {
        address: address(id),
        pools_config: address(1000),
        token_mint_a: address(mint_a),
        token_vault_a: address(id * 10 + 1),
        token_mint_b: address(mint_b),
        token_vault_b: address(id * 10 + 2),
        tick_spacing: 64,
        fee_rate: 3000,
        protocol_fee_rate: 0,
        liquidity: 1_000_000_000,
        sqrt_price: sqrt_price_from_tick_index(-2816),
        tick_current_index: -2816,
        protocol_fee_owed_a: 0,
        protocol_fee_owed_b: 0,
        fee_growth_global_a: 0,
        fee_growth_global_b: 0,
        reward_last_updated_timestamp: 0,
    }
}

fn empty_array(start: i32) -> TickArray {
    TickArray { start_tick_index: start, ticks: vec![Tick::empty(); TICK_ARRAY_SIZE] }
}

fn swap_ctx() -> Swap {
    Swap {
        token_authority: address(500),
        pool: pool(1, 3, 5),
        token_owner_account_a: address(501),
        token_vault_a: address(11),
        token_owner_account_b: address(502),
        token_vault_b: address(12),
        tick_array_0: empty_array(-5632),
        tick_array_1: None,
        tick_array_2: None,
    }
}

fn same_swap_state(a: &Swap, b: &Swap) -> bool {
    a.pool == b.pool && a.tick_array_0.ticks == b.tick_array_0.ticks
}

#[test]
fn exact_in_swap_meets_the_minimum_out() {
    let mut ctx = swap_ctx();
    let r = swap_instruction::handler(&mut ctx, 1_000_000, 751671, 0, true, true, 77).unwrap();
    assert_eq!(r.amount_a, 1_000_000);
    assert_eq!(r.amount_b, 751671);
    assert_eq!(ctx.pool.sqrt_price, r.next_sqrt_price);
    assert_eq!(ctx.pool.tick_current_index, -2834);
    assert_eq!(ctx.pool.reward_last_updated_timestamp, 77);
}

#[test]
fn exact_in_swap_below_the_minimum_out_changes_nothing() {
    let mut ctx = swap_ctx();
    let before = swap_ctx();
    let r = swap_instruction::handler(&mut ctx, 1_000_000, 751672, 0, true, true, 77);
    assert_eq!(r, Err(ErrorCode::AmountOutBelowMinimum));
    assert!(same_swap_state(&ctx, &before));
}

#[test]
fn exact_out_swap_above_the_maximum_in_changes_nothing() {
    let mut probe = swap_ctx();
    let needed = swap_instruction::handler(&mut probe, 500_000, u64::MAX, 0, false, true, 1).unwrap().amount_a;
    let mut ctx = swap_ctx();
    let before = swap_ctx();
    let r = swap_instruction::handler(&mut ctx, 500_000, needed - 1, 0, false, true, 1);
    assert_eq!(r, Err(ErrorCode::AmountInAboveMaximum));
    assert!(same_swap_state(&ctx, &before));
    let ok = swap_instruction::handler(&mut ctx, 500_000, needed, 0, false, true, 1).unwrap();
    assert_eq!(ok.amount_a, needed);
    assert_eq!(ok.amount_b, 500_000);
}

#[test]
fn swap_records_the_protocol_fee_owed() {
    let mut ctx = swap_ctx();
    ctx.pool.protocol_fee_rate = 300;
    swap_instruction::handler(&mut ctx, 1_000_000, 0, 0, true, true, 5).unwrap();
    assert_eq!(ctx.pool.protocol_fee_owed_a, 90);
    assert_eq!(ctx.pool.protocol_fee_owed_b, 0);
}

#[test]
fn fee_growth_never_decreases_across_swaps() {
    let mut ctx = swap_ctx();
    let mut last_a = ctx.pool.fee_growth_global_a;
    let mut last_b = ctx.pool.fee_growth_global_b;
    for (amount, a_to_b) in [(10_000u64, true), (20_000, false), (5_000, true), (7_000, false)] {
        swap_instruction::handler(&mut ctx, amount, 0, 0, true, a_to_b, 1).unwrap();
        assert!(ctx.pool.fee_growth_global_a >= last_a);
        assert!(ctx.pool.fee_growth_global_b >= last_b);
        last_a = ctx.pool.fee_growth_global_a;
        last_b = ctx.pool.fee_growth_global_b;
    }
    assert!(last_a > 0 && last_b > 0);
}

fn two_hop_ctx(fee_b: Option<TransferFeeConfig>) -> TwoHopSwapV2 {
    // route A -> B -> C: pool one holds (A, B), pool two holds (B, C)
    TwoHopSwapV2 {
        pool_one: pool(1, 3, 4),
        pool_two: pool(2, 4, 5),
        token_mint_input: Mint { address: address(3), transfer_fee: None },
        token_mint_intermediate: Mint { address: address(4), transfer_fee: fee_b },
        token_mint_output: Mint { address: address(5), transfer_fee: None },
        tick_array_one_0: empty_array(-5632),
        tick_array_one_1: None,
        tick_array_one_2: None,
        tick_array_two_0: empty_array(-5632),
        tick_array_two_1: None,
        tick_array_two_2: None,
    }
}

#[test]
fn two_hop_legs_agree_on_the_intermediate_amount() {
    let mut ctx = two_hop_ctx(None);
    let r = two_hop_swap::handler(&mut ctx, 1_000_000, 0, true, true, true, 0, 0, 3).unwrap();
    assert_eq!(r.swap_one.amount_b, r.swap_two.amount_a);
    assert_eq!(r.swap_one.amount_a, 1_000_000);
    assert_eq!(r.swap_one.amount_b, 751671);
    assert_eq!(ctx.pool_one.sqrt_price, r.swap_one.next_sqrt_price);
    assert_eq!(ctx.pool_two.sqrt_price, r.swap_two.next_sqrt_price);
}

#[test]
fn two_hop_with_fee_on_the_intermediate_token() {
    let one_percent = Some(TransferFeeConfig { basis_points: 100, maximum_fee: u64::MAX });
    let mut ctx = two_hop_ctx(one_percent);
    let r = two_hop_swap::handler(&mut ctx, 1_000_000, 0, true, true, true, 0, 0, 3).unwrap();
    let debited = r.swap_one.amount_b;
    let credited = calculate_transfer_fee_excluded_amount(one_percent, debited).unwrap();
    assert_eq!(debited, 751671);
    // 1% of 751671 is 7516.71, withheld rounded up
    assert_eq!(credited, 751671 - 7517);
    assert_eq!(credited, debited - (debited + 99) / 100);
    // leg two reports the gross amount but trades the net one
    assert_eq!(r.swap_two.amount_a, debited);
    let mut ticks = TickSequence::new(64, empty_array(-5632), None, None, true).unwrap();
    let net_leg = swap(&pool(2, 4, 5), &mut ticks, credited, 0, true, true).unwrap();
    assert_eq!(r.swap_two.amount_b, net_leg.amount_b);
}

#[test]
fn two_hop_exact_out() {
    let mut ctx = two_hop_ctx(None);
    let r = two_hop_swap::handler(&mut ctx, 100_000, u64::MAX, false, true, true, 0, 0, 3).unwrap();
    assert_eq!(r.swap_two.amount_b, 100_000);
    assert_eq!(r.swap_one.amount_b, r.swap_two.amount_a);
    let input = r.swap_one.amount_a;
    let mut again = two_hop_ctx(None);
    let refused = two_hop_swap::handler(&mut again, 100_000, input - 1, false, true, true, 0, 0, 3);
    assert_eq!(refused, Err(ErrorCode::AmountInAboveMaximum));
    assert_eq!(again.pool_one, two_hop_ctx(None).pool_one);
    assert_eq!(again.pool_two, two_hop_ctx(None).pool_two);
}

#[test]
fn two_hop_below_the_minimum_out_changes_nothing() {
    let mut ctx = two_hop_ctx(None);
    let r = two_hop_swap::handler(&mut ctx, 1_000_000, u64::MAX, true, true, true, 0, 0, 3);
    assert_eq!(r, Err(ErrorCode::AmountOutBelowMinimum));
    assert_eq!(ctx.pool_one, two_hop_ctx(None).pool_one);
    assert_eq!(ctx.pool_two, two_hop_ctx(None).pool_two);
}

#[test]
fn two_hop_on_one_pool_is_refused() {
    let mut ctx = two_hop_ctx(None);
    ctx.pool_two = ctx.pool_one;
    ctx.token_mint_output = Mint { address: address(4), transfer_fee: None };
    let r = two_hop_swap::handler(&mut ctx, 1_000, 0, true, true, true, 0, 0, 3);
    assert_eq!(r, Err(ErrorCode::DuplicateTwoHopPool));
}

#[test]
fn two_hop_with_another_intermediate_token_is_refused() {
    let mut ctx = two_hop_ctx(None);
    // pool two swapping C -> B takes C, not B, in
    ctx.token_mint_output = Mint { address: address(4), transfer_fee: None };
    let r = two_hop_swap::handler(&mut ctx, 1_000, 0, true, true, false, 0, 0, 3);
    assert_eq!(r, Err(ErrorCode::InvalidIntermediaryMint));
}

#[test]
fn collecting_twice_moves_nothing_the_second_time() {
    let mut p = pool(1, 3, 5);
    p.protocol_fee_owed_a = 120;
    p.protocol_fee_owed_b = 45;
    let mut ctx = CollectProtocolFeesV2 { pool: p, transfer_fee_a: None, transfer_fee_b: None };
    let first = collect_protocol_fees::handler(&mut ctx);
    assert_eq!(first, ProtocolFeeTransfers { amount_a: 120, amount_b: 45 });
    assert_eq!(ctx.pool.protocol_fee_owed_a, 0);
    assert_eq!(ctx.pool.protocol_fee_owed_b, 0);
    let second = collect_protocol_fees::handler(&mut ctx);
    assert_eq!(second, ProtocolFeeTransfers { amount_a: 0, amount_b: 0 });
}

#[test]
fn fee_tier_refuses_a_rate_above_the_maximum() {
    let mut tier = FeeTier { pools_config: address(0), tick_spacing: 0, default_fee_rate: 0 };
    assert_eq!(tier.initialize(address(9), 64, 30_001), Err(ErrorCode::FeeRateMaxExceeded));
    assert_eq!(tier, FeeTier { pools_config: address(0), tick_spacing: 0, default_fee_rate: 0 });
    assert_eq!(tier.initialize(address(9), 64, 3000), Ok(()));
    assert_eq!(tier, FeeTier { pools_config: address(9), tick_spacing: 64, default_fee_rate: 3000 });
    assert_eq!(tier.update_default_fee_rate(40_000), Err(ErrorCode::FeeRateMaxExceeded));
    assert_eq!(tier.default_fee_rate, 3000);
    assert_eq!(tier.update_default_fee_rate(30_000), Ok(()));
    assert_eq!(tier.default_fee_rate, 30_000);
}

#[test]
fn config_extension_starts_with_the_fee_authority() {
    let blank = PoolsConfigExtension {
        pools_config: address(0),
        config_extension_authority: address(0),
        token_badge_authority: address(0),
    };
    let mut ctx = InitializeConfigExtension { config: address(1), fee_authority: address(2), config_extension: blank };
    assert_eq!(initialize_config_extension::handler(&mut ctx), Ok(()));
    assert_eq!(ctx.config_extension.pools_config, address(1));
    assert_eq!(ctx.config_extension.config_extension_authority, address(2));
    assert_eq!(ctx.config_extension.token_badge_authority, address(2));
    ctx.config_extension.update_config_extension_authority(address(3));
    ctx.config_extension.update_token_badge_authority(address(4));
    assert_eq!(ctx.config_extension.config_extension_authority, address(3));
    assert_eq!(ctx.config_extension.token_badge_authority, address(4));
    assert_eq!(ctx.config_extension.pools_config, address(1));
}

#[test]
fn deleting_a_token_badge_is_accepted() {
    let ctx = DeleteTokenBadge { pools_config: address(1), token_mint: address(2), token_badge: address(3), receiver: address(4) };
    assert_eq!(delete_token_badge::handler(&ctx), Ok(()));
}

#[test]
fn transfer_fee_amounts() {
    let one_percent = Some(TransferFeeConfig { basis_points: 100, maximum_fee: u64::MAX });
    assert_eq!(calculate_transfer_fee_excluded_amount(one_percent, 10_000), Ok(9_900));
    assert_eq!(calculate_transfer_fee_excluded_amount(one_percent, 101), Ok(99));
    assert_eq!(calculate_transfer_fee_included_amount(one_percent, 9_900), Ok(10_000));
    assert_eq!(calculate_transfer_fee_excluded_amount(None, 10_000), Ok(10_000));
    let capped = Some(TransferFeeConfig { basis_points: 100, maximum_fee: 5 });
    assert_eq!(calculate_transfer_fee_excluded_amount(capped, 10_000), Ok(9_995));
    assert_eq!(calculate_transfer_fee_included_amount(capped, 9_995), Ok(10_000));
    let full = Some(TransferFeeConfig { basis_points: 10_000, maximum_fee: 7 });
    assert_eq!(calculate_transfer_fee_included_amount(full, 10), Ok(17));
    assert_eq!(calculate_transfer_fee_included_amount(full, u64::MAX), Err(ErrorCode::TransferFeeCalculationError));
    let over = Some(TransferFeeConfig { basis_points: 20_000, maximum_fee: u64::MAX });
    assert_eq!(calculate_transfer_fee_excluded_amount(over, 10), Err(ErrorCode::TransferFeeCalculationError));
}

#[test]
fn swap_handler_writes_crossed_ticks_back() {
    let mut ctx = swap_ctx();
    ctx.tick_array_0.ticks[43] = Tick {
        liquidity_net: 500_000_000,
        liquidity_gross: 500_000_000,
        fee_growth_outside_a: 0,
        fee_growth_outside_b: 0,
    };
    let r = swap_instruction::handler(&mut ctx, 5_000_000, 0, 0, true, true, 9).unwrap();
    assert_eq!(r.next_liquidity, 500_000_000);
    assert_eq!(ctx.pool.liquidity, 500_000_000);
    let crossed = ctx.tick_array_0.ticks[43];
    assert!(crossed.fee_growth_outside_a > 0);
    assert!(crossed.fee_growth_outside_a < ctx.pool.fee_growth_global_a);
    assert_eq!(ctx.tick_array_0.ticks[42], Tick::empty());
}

#[test]
fn tick_array_copy_keeps_every_slot() {
    let mut array = empty_array(-5632);
    array.ticks[7].liquidity_gross = 3;
    let copy = array.copy();
    assert_eq!(copy.start_tick_index, -5632);
    assert_eq!(copy.ticks, array.ticks);
}
