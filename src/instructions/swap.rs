use vstd::prelude::*;
use crate::errors::ErrorCode;
use crate::pool::{Address, Pool, SwapResult};
use crate::swap::{
    effective_limit, input_amount, limit_is_valid, output_amount, swap, specified_amount, swap_spec,
};
use crate::tick::{
    arrays_in_order, arrays_valid, ascending_index, copy_option, joined_ticks, lemma_same_arrays,
    same_arrays, written_back, Tick, TickArray, TickSequence,
};

verus! {

/// What a single-pool swap works on: the pool, the trader's accounts and the
/// pool's vaults, and up to three tick arrays in the order of travel.
#[derive(Clone, Debug)]
pub struct Swap {
    pub token_authority: Address,
    pub pool: Pool,
    pub token_owner_account_a: Address,
    pub token_vault_a: Address,
    pub token_owner_account_b: Address,
    pub token_vault_b: Address,
    pub tick_array_0: TickArray,
    pub tick_array_1: Option<TickArray>,
    pub tick_array_2: Option<TickArray>,
}

/// The tick arrays of a swap in the order of travel.
pub open spec fn loaded_arrays(ctx: Swap) -> Seq<TickArray> {
    arrays_in_order(ctx.tick_array_0, ctx.tick_array_1, ctx.tick_array_2)
}

/// First tick of the run that the arrays form.
pub open spec fn run_start(arrays: Seq<TickArray>, a_to_b: bool) -> int {
    arrays[ascending_index(arrays.len() as int, 0, a_to_b)].start_tick_index as int
}

/// The slippage bound and the owed protocol fee, checked on an engine result.
pub open spec fn settle_spec(pool: Pool, u: SwapResult, other_amount_threshold: u64, is_input: bool, a_to_b: bool) -> Result<SwapResult, ErrorCode> {
    if is_input && output_amount(u, a_to_b) < other_amount_threshold {
        Err(ErrorCode::AmountOutBelowMinimum)
    } else if !is_input && input_amount(u, a_to_b) > other_amount_threshold {
        Err(ErrorCode::AmountInAboveMaximum)
    } else if pool.protocol_fee_overflows(u, a_to_b) {
        Err(ErrorCode::MathOverflow)
    } else {
        Ok(u)
    }
}

/// What the swap handler computes: the engine's result on the loaded pool and
/// ticks, held to the bound, with the ticks after the swap.
pub open spec fn swap_instruction_spec(
    ctx: Swap,
    amount: u64,
    other_amount_threshold: u64,
    sqrt_price_limit: u128,
    is_input: bool,
    a_to_b: bool,
) -> Result<(SwapResult, Seq<Tick>), ErrorCode> {
    let arrays = loaded_arrays(ctx);
    if !arrays_valid(ctx.pool.tick_spacing, arrays, a_to_b) {
        Err(ErrorCode::InvalidTickArraySequence)
    } else {
        match swap_spec(ctx.pool, run_start(arrays, a_to_b), ctx.pool.tick_spacing as int,
            joined_ticks(arrays, a_to_b, arrays.len() as int), amount, sqrt_price_limit, is_input, a_to_b) {
            Err(e) => Err(e),
            Ok((u, t)) => match settle_spec(ctx.pool, u, other_amount_threshold, is_input, a_to_b) {
                Err(e) => Err(e),
                Ok(v) => Ok((v, t)),
            },
        }
    }
}

/// Swaps on one pool and, when the result meets the caller's bound, applies
/// it to the pool and the tick arrays. The result names the gross amounts
/// that the caller then moves: the input from trader to vault, the output
/// from vault to trader.
///
/// Exact input: fails with `AmountOutBelowMinimum` where the output is below
/// `other_amount_threshold`. Exact output: fails with `AmountInAboveMaximum`
/// where the input is above it. Any failure leaves everything unchanged.
pub fn handler(
    ctx: &mut Swap,
    amount: u64,
    other_amount_threshold: u64,
    sqrt_price_limit: u128,
    amount_specified_is_input: bool,
    a_to_b: bool,
    timestamp: u64,
) -> (r: Result<SwapResult, ErrorCode>)
    requires
        old(ctx).pool.wf(),
    ensures
        r.is_err() ==> *final(ctx) == *old(ctx),
        match swap_instruction_spec(*old(ctx), amount, other_amount_threshold, sqrt_price_limit, amount_specified_is_input, a_to_b) {
            Err(e) => r == Err::<SwapResult, ErrorCode>(e),
            Ok((u, t)) => {
                let start = run_start(loaded_arrays(*old(ctx)), a_to_b);
                let spacing = old(ctx).pool.tick_spacing as int;
                &&& r == Ok::<SwapResult, ErrorCode>(u)
                &&& final(ctx).tick_array_0.start_tick_index == old(ctx).tick_array_0.start_tick_index
                &&& final(ctx).tick_array_0.ticks@ == written_back(start, spacing, t, old(ctx).tick_array_0)
                &&& final(ctx).tick_array_1.is_some() == old(ctx).tick_array_1.is_some()
                &&& old(ctx).tick_array_1.is_some() ==> final(ctx).tick_array_1.unwrap().ticks@
                    == written_back(start, spacing, t, old(ctx).tick_array_1.unwrap())
                &&& final(ctx).tick_array_2.is_some() == old(ctx).tick_array_2.is_some()
                &&& old(ctx).tick_array_2.is_some() ==> final(ctx).tick_array_2.unwrap().ticks@
                    == written_back(start, spacing, t, old(ctx).tick_array_2.unwrap())
            },
        },
        match r {
            Ok(u) => {
                let limit = effective_limit(sqrt_price_limit, a_to_b);
                &&& final(ctx).pool == old(ctx).pool.after_swap(u, a_to_b, timestamp)
                &&& final(ctx).pool.wf()
                &&& amount_specified_is_input ==> output_amount(u, a_to_b) >= other_amount_threshold
                &&& !amount_specified_is_input ==> input_amount(u, a_to_b) <= other_amount_threshold
                &&& limit_is_valid(old(ctx).pool.sqrt_price, sqrt_price_limit, a_to_b)
                &&& a_to_b ==> limit <= u.next_sqrt_price <= old(ctx).pool.sqrt_price
                &&& !a_to_b ==> old(ctx).pool.sqrt_price <= u.next_sqrt_price <= limit
                &&& u.next_fee_growth_global_a >= old(ctx).pool.fee_growth_global_a
                &&& u.next_fee_growth_global_b >= old(ctx).pool.fee_growth_global_b
                &&& specified_amount(u, amount_specified_is_input, a_to_b) <= amount
            },
            Err(_) => true,
        },
{
    let first = ctx.tick_array_0.copy();
    let second = copy_option(&ctx.tick_array_1);
    let third = copy_option(&ctx.tick_array_2);
    proof {
        let copies = arrays_in_order(first, second, third);
        let loaded = loaded_arrays(*ctx);
        assert(same_arrays(copies, loaded));
        lemma_same_arrays(copies, loaded, ctx.pool.tick_spacing, a_to_b, copies.len() as int);
    }
    let mut ticks = TickSequence::new(ctx.pool.tick_spacing, first, second, third, a_to_b)?;
    let update = swap(&ctx.pool, &mut ticks, amount, sqrt_price_limit, amount_specified_is_input, a_to_b)?;
    if amount_specified_is_input {
        if (a_to_b && other_amount_threshold > update.amount_b) || (!a_to_b && other_amount_threshold
            > update.amount_a) {
            return Err(ErrorCode::AmountOutBelowMinimum);
        }
    } else {
        if (a_to_b && other_amount_threshold < update.amount_a) || (!a_to_b && other_amount_threshold
            < update.amount_b) {
            return Err(ErrorCode::AmountInAboveMaximum);
        }
    }
    let mut pool = ctx.pool;
    pool.apply_swap(&update, a_to_b, timestamp)?;
    ctx.pool = pool;
    ticks.write_back(&mut ctx.tick_array_0);
    if let Some(array) = &mut ctx.tick_array_1 {
        ticks.write_back(array);
    }
    if let Some(array) = &mut ctx.tick_array_2 {
        ticks.write_back(array);
    }
    Ok(update)
}

} // verus!
