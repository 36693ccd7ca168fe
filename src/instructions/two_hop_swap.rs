use vstd::prelude::*;
use crate::errors::ErrorCode;
use crate::pool::{Address, Pool, SwapResult};
use crate::instructions::swap::run_start;
use crate::swap::{input_amount, output_amount, swap_with_fee_spec, swap_with_transfer_fee_extension};
use crate::tick::{
    arrays_in_order, arrays_valid, copy_option, joined_ticks, lemma_same_arrays, same_arrays, written_back,
    Tick, TickArray, TickSequence,
};
use crate::transfer_fee::{calculate_transfer_fee_excluded_amount, fee_excluded, TransferFeeConfig};

verus! {

/// A token mint and the transfer fee that it charges, if any.
#[derive(Clone, Copy, Debug, PartialEq, Eq, Structural)]
pub struct Mint {
    pub address: Address,
    pub transfer_fee: Option<TransferFeeConfig>,
}

/// What a two-hop swap works on: two pools that share the intermediate
/// token, the three mints of the route, and up to three tick arrays for each
/// pool in its order of travel.
#[derive(Clone, Debug)]
pub struct TwoHopSwapV2 {
    pub pool_one: Pool,
    pub pool_two: Pool,
    pub token_mint_input: Mint,
    pub token_mint_intermediate: Mint,
    pub token_mint_output: Mint,
    pub tick_array_one_0: TickArray,
    pub tick_array_one_1: Option<TickArray>,
    pub tick_array_one_2: Option<TickArray>,
    pub tick_array_two_0: TickArray,
    pub tick_array_two_1: Option<TickArray>,
    pub tick_array_two_2: Option<TickArray>,
}

/// The two legs of an accepted two-hop swap. The caller moves the input from
/// the trader to pool one's vault, the intermediate amount from pool one's
/// vault to pool two's, and the output from pool two's vault to the trader.
#[derive(Clone, Copy, Debug, PartialEq, Eq, Structural)]
pub struct TwoHopSwapUpdate {
    pub swap_one: SwapResult,
    pub swap_two: SwapResult,
}

impl TwoHopSwapV2 {
    /// Whether the three mints are those of the route that the two
    /// directions give.
    pub open spec fn mints_match(&self, a_to_b_one: bool, a_to_b_two: bool) -> bool {
        &&& self.token_mint_input.address == self.pool_one.input_token_mint_spec(a_to_b_one)
        &&& self.token_mint_intermediate.address == self.pool_one.output_token_mint_spec(a_to_b_one)
        &&& self.token_mint_output.address == self.pool_two.output_token_mint_spec(a_to_b_two)
    }

    /// Whether the loaded state may be handed to `handler`: both pools are
    /// well formed and the mints are those of the route.
    pub fn is_valid_route(&self, a_to_b_one: bool, a_to_b_two: bool) -> (r: bool)
        ensures
            r == (self.pool_one.wf() && self.pool_two.wf() && self.mints_match(a_to_b_one, a_to_b_two)),
    {
        self.pool_one.is_valid() && self.pool_two.is_valid() && self.token_mint_input.address
            == self.pool_one.input_token_mint(a_to_b_one) && self.token_mint_intermediate.address
            == self.pool_one.output_token_mint(a_to_b_one) && self.token_mint_output.address
            == self.pool_two.output_token_mint(a_to_b_two)
    }
}

/// Whether `new` is `old` with the run written back into it.
pub open spec fn array_written(start: int, spacing: int, t: Seq<Tick>, old: TickArray, new: TickArray) -> bool {
    new.start_tick_index == old.start_tick_index && new.ticks@ == written_back(start, spacing, t, old)
}

/// The same for an optional array.
pub open spec fn option_written(start: int, spacing: int, t: Seq<Tick>, old: Option<TickArray>, new: Option<TickArray>) -> bool {
    new.is_some() == old.is_some() && (old.is_some() ==> array_written(start, spacing, t, old.unwrap(), new.unwrap()))
}

/// What the two-hop handler computes: both legs and the ticks of each pool
/// after them, or the error.
pub open spec fn two_hop_spec(
    ctx: TwoHopSwapV2,
    amount: u64,
    other_amount_threshold: u64,
    is_input: bool,
    a_to_b_one: bool,
    a_to_b_two: bool,
    sqrt_price_limit_one: u128,
    sqrt_price_limit_two: u128,
) -> Result<(TwoHopSwapUpdate, Seq<Tick>, Seq<Tick>), ErrorCode> {
    let fee_input = ctx.token_mint_input.transfer_fee;
    let fee_mid = ctx.token_mint_intermediate.transfer_fee;
    let fee_output = ctx.token_mint_output.transfer_fee;
    let one_a = if a_to_b_one { fee_input } else { fee_mid };
    let one_b = if a_to_b_one { fee_mid } else { fee_input };
    let two_a = if a_to_b_two { fee_mid } else { fee_output };
    let two_b = if a_to_b_two { fee_output } else { fee_mid };
    let arrays_one = arrays_in_order(ctx.tick_array_one_0, ctx.tick_array_one_1, ctx.tick_array_one_2);
    let arrays_two = arrays_in_order(ctx.tick_array_two_0, ctx.tick_array_two_1, ctx.tick_array_two_2);
    let spacing_one = ctx.pool_one.tick_spacing as int;
    let spacing_two = ctx.pool_two.tick_spacing as int;
    let start_one = run_start(arrays_one, a_to_b_one);
    let start_two = run_start(arrays_two, a_to_b_two);
    let ticks_one = joined_ticks(arrays_one, a_to_b_one, arrays_one.len() as int);
    let ticks_two = joined_ticks(arrays_two, a_to_b_two, arrays_two.len() as int);
    let legs = if is_input {
        match swap_with_fee_spec(ctx.pool_one, one_a, one_b, start_one, spacing_one, ticks_one, amount,
            sqrt_price_limit_one, true, a_to_b_one) {
            Err(e) => Err(e),
            Ok((u1, t1)) => match swap_with_fee_spec(ctx.pool_two, two_a, two_b, start_two, spacing_two, ticks_two,
                output_amount(u1, a_to_b_one), sqrt_price_limit_two, true, a_to_b_two) {
                Err(e) => Err(e),
                Ok((u2, t2)) => Ok((u1, t1, u2, t2)),
            },
        }
    } else {
        match swap_with_fee_spec(ctx.pool_two, two_a, two_b, start_two, spacing_two, ticks_two, amount,
            sqrt_price_limit_two, false, a_to_b_two) {
            Err(e) => Err(e),
            Ok((u2, t2)) => match fee_excluded(fee_mid, input_amount(u2, a_to_b_two)) {
                None => Err(ErrorCode::TransferFeeCalculationError),
                Some(target) => match swap_with_fee_spec(ctx.pool_one, one_a, one_b, start_one, spacing_one, ticks_one,
                    target, sqrt_price_limit_one, false, a_to_b_one) {
                    Err(e) => Err(e),
                    Ok((u1, t1)) => Ok((u1, t1, u2, t2)),
                },
            },
        }
    };
    if ctx.pool_one.address == ctx.pool_two.address {
        Err(ErrorCode::DuplicateTwoHopPool)
    } else if ctx.pool_one.output_token_mint_spec(a_to_b_one) != ctx.pool_two.input_token_mint_spec(a_to_b_two) {
        Err(ErrorCode::InvalidIntermediaryMint)
    } else if !arrays_valid(ctx.pool_one.tick_spacing, arrays_one, a_to_b_one)
        || !arrays_valid(ctx.pool_two.tick_spacing, arrays_two, a_to_b_two) {
        Err(ErrorCode::InvalidTickArraySequence)
    } else {
        match legs {
            Err(e) => Err(e),
            Ok((u1, t1, u2, t2)) => if output_amount(u1, a_to_b_one) != input_amount(u2, a_to_b_two) {
                Err(ErrorCode::IntermediateTokenAmountMismatch)
            } else {
                let bound = if is_input {
                    match fee_excluded(fee_output, output_amount(u2, a_to_b_two)) {
                        None => Err(ErrorCode::TransferFeeCalculationError),
                        Some(received) => if received < other_amount_threshold {
                            Err(ErrorCode::AmountOutBelowMinimum)
                        } else {
                            Ok(())
                        },
                    }
                } else if input_amount(u1, a_to_b_one) > other_amount_threshold {
                    Err(ErrorCode::AmountInAboveMaximum)
                } else {
                    Ok(())
                };
                match bound {
                    Err(e) => Err(e),
                    Ok(()) => if ctx.pool_one.protocol_fee_overflows(u1, a_to_b_one)
                        || ctx.pool_two.protocol_fee_overflows(u2, a_to_b_two) {
                        Err(ErrorCode::MathOverflow)
                    } else {
                        Ok((TwoHopSwapUpdate { swap_one: u1, swap_two: u2 }, t1, t2))
                    },
                }
            },
        }
    }
}

/// The fee of the mint that each side of a pool holds, in the order (A, B).
fn pool_fees(
    a_to_b: bool,
    input: Option<TransferFeeConfig>,
    output: Option<TransferFeeConfig>,
) -> (r: (Option<TransferFeeConfig>, Option<TransferFeeConfig>))
    ensures
        r == if a_to_b { (input, output) } else { (output, input) },
{
    if a_to_b { (input, output) } else { (output, input) }
}

/// Swaps along pool one and then pool two as one operation.
///
/// Exact input: leg one runs on `amount`, and leg two on what leaves pool
/// one. Exact output: leg two runs back from `amount`, and leg one must
/// deliver what arrives of leg two's input once the intermediate token's
/// transfer fee is taken. Either way the amount that leaves pool one must be
/// exactly the amount that leg two takes in (else
/// `IntermediateTokenAmountMismatch`), and the far ends of the route are
/// held to `other_amount_threshold`: what reaches the trader for exact input
/// (else `AmountOutBelowMinimum`), what leaves the trader for exact output
/// (else `AmountInAboveMaximum`). The two pools must differ
/// (`DuplicateTwoHopPool`) and pool one's output token must be pool two's
/// input token (`InvalidIntermediaryMint`). Both pools and all tick arrays
/// are updated together, or on any failure nothing is.
pub fn handler(
    ctx: &mut TwoHopSwapV2,
    amount: u64,
    other_amount_threshold: u64,
    amount_specified_is_input: bool,
    a_to_b_one: bool,
    a_to_b_two: bool,
    sqrt_price_limit_one: u128,
    sqrt_price_limit_two: u128,
    timestamp: u64,
) -> (r: Result<TwoHopSwapUpdate, ErrorCode>)
    requires
        old(ctx).pool_one.wf(),
        old(ctx).pool_two.wf(),
        old(ctx).mints_match(a_to_b_one, a_to_b_two),
    ensures
        r.is_err() ==> *final(ctx) == *old(ctx),
        match two_hop_spec(*old(ctx), amount, other_amount_threshold, amount_specified_is_input, a_to_b_one,
            a_to_b_two, sqrt_price_limit_one, sqrt_price_limit_two) {
            Err(e) => r == Err::<TwoHopSwapUpdate, ErrorCode>(e),
            Ok((update, t1, t2)) => {
                let start_one = run_start(arrays_in_order(old(ctx).tick_array_one_0, old(ctx).tick_array_one_1,
                    old(ctx).tick_array_one_2), a_to_b_one);
                let start_two = run_start(arrays_in_order(old(ctx).tick_array_two_0, old(ctx).tick_array_two_1,
                    old(ctx).tick_array_two_2), a_to_b_two);
                let s1 = old(ctx).pool_one.tick_spacing as int;
                let s2 = old(ctx).pool_two.tick_spacing as int;
                &&& r == Ok::<TwoHopSwapUpdate, ErrorCode>(update)
                &&& array_written(start_one, s1, t1, old(ctx).tick_array_one_0, final(ctx).tick_array_one_0)
                &&& option_written(start_one, s1, t1, old(ctx).tick_array_one_1, final(ctx).tick_array_one_1)
                &&& option_written(start_one, s1, t1, old(ctx).tick_array_one_2, final(ctx).tick_array_one_2)
                &&& array_written(start_two, s2, t2, old(ctx).tick_array_two_0, final(ctx).tick_array_two_0)
                &&& option_written(start_two, s2, t2, old(ctx).tick_array_two_1, final(ctx).tick_array_two_1)
                &&& option_written(start_two, s2, t2, old(ctx).tick_array_two_2, final(ctx).tick_array_two_2)
            },
        },
        old(ctx).pool_one.address == old(ctx).pool_two.address
            ==> r == Err::<TwoHopSwapUpdate, ErrorCode>(ErrorCode::DuplicateTwoHopPool),
        old(ctx).pool_one.address != old(ctx).pool_two.address
            && old(ctx).pool_one.output_token_mint_spec(a_to_b_one) != old(ctx).pool_two.input_token_mint_spec(a_to_b_two)
            ==> r == Err::<TwoHopSwapUpdate, ErrorCode>(ErrorCode::InvalidIntermediaryMint),
        match r {
            Ok(t) => {
                &&& output_amount(t.swap_one, a_to_b_one) == input_amount(t.swap_two, a_to_b_two)
                &&& final(ctx).pool_one == old(ctx).pool_one.after_swap(t.swap_one, a_to_b_one, timestamp)
                &&& final(ctx).pool_two == old(ctx).pool_two.after_swap(t.swap_two, a_to_b_two, timestamp)
                &&& amount_specified_is_input ==> match fee_excluded(
                    old(ctx).token_mint_output.transfer_fee,
                    output_amount(t.swap_two, a_to_b_two),
                ) {
                    Some(received) => received >= other_amount_threshold,
                    None => false,
                }
                &&& !amount_specified_is_input ==> input_amount(t.swap_one, a_to_b_one) <= other_amount_threshold
                &&& t.swap_one.next_fee_growth_global_a >= old(ctx).pool_one.fee_growth_global_a
                &&& t.swap_one.next_fee_growth_global_b >= old(ctx).pool_one.fee_growth_global_b
                &&& t.swap_two.next_fee_growth_global_a >= old(ctx).pool_two.fee_growth_global_a
                &&& t.swap_two.next_fee_growth_global_b >= old(ctx).pool_two.fee_growth_global_b
            },
            Err(_) => true,
        },
{
    if ctx.pool_one.address == ctx.pool_two.address {
        return Err(ErrorCode::DuplicateTwoHopPool);
    }
    let swap_one_output_mint = ctx.pool_one.output_token_mint(a_to_b_one);
    let swap_two_input_mint = ctx.pool_two.input_token_mint(a_to_b_two);
    if swap_one_output_mint != swap_two_input_mint {
        return Err(ErrorCode::InvalidIntermediaryMint);
    }
    let fee_input = ctx.token_mint_input.transfer_fee;
    let fee_intermediate = ctx.token_mint_intermediate.transfer_fee;
    let fee_output = ctx.token_mint_output.transfer_fee;
    let (fee_one_a, fee_one_b) = pool_fees(a_to_b_one, fee_input, fee_intermediate);
    let (fee_two_a, fee_two_b) = pool_fees(a_to_b_two, fee_intermediate, fee_output);
    let one_0 = ctx.tick_array_one_0.copy();
    let one_1 = copy_option(&ctx.tick_array_one_1);
    let one_2 = copy_option(&ctx.tick_array_one_2);
    let two_0 = ctx.tick_array_two_0.copy();
    let two_1 = copy_option(&ctx.tick_array_two_1);
    let two_2 = copy_option(&ctx.tick_array_two_2);
    proof {
        let copies_one = arrays_in_order(one_0, one_1, one_2);
        let loaded_one = arrays_in_order(ctx.tick_array_one_0, ctx.tick_array_one_1, ctx.tick_array_one_2);
        assert(same_arrays(copies_one, loaded_one));
        lemma_same_arrays(copies_one, loaded_one, ctx.pool_one.tick_spacing, a_to_b_one, copies_one.len() as int);
        let copies_two = arrays_in_order(two_0, two_1, two_2);
        let loaded_two = arrays_in_order(ctx.tick_array_two_0, ctx.tick_array_two_1, ctx.tick_array_two_2);
        assert(same_arrays(copies_two, loaded_two));
        lemma_same_arrays(copies_two, loaded_two, ctx.pool_two.tick_spacing, a_to_b_two, copies_two.len() as int);
    }
    let mut ticks_one = TickSequence::new(ctx.pool_one.tick_spacing, one_0, one_1, one_2, a_to_b_one)?;
    let mut ticks_two = TickSequence::new(ctx.pool_two.tick_spacing, two_0, two_1, two_2, a_to_b_two)?;
    let (swap_one, swap_two) = if amount_specified_is_input {
        let swap_one = swap_with_transfer_fee_extension(
            &ctx.pool_one,
            fee_one_a,
            fee_one_b,
            &mut ticks_one,
            amount,
            sqrt_price_limit_one,
            true,
            a_to_b_one,
        )?;
        // The intermediate token moves vault to vault, so its transfer fee
        // is charged once, inside leg two.
        let swap_two_input = if a_to_b_one { swap_one.amount_b } else { swap_one.amount_a };
        let swap_two = swap_with_transfer_fee_extension(
            &ctx.pool_two,
            fee_two_a,
            fee_two_b,
            &mut ticks_two,
            swap_two_input,
            sqrt_price_limit_two,
            true,
            a_to_b_two,
        )?;
        (swap_one, swap_two)
    } else {
        let swap_two = swap_with_transfer_fee_extension(
            &ctx.pool_two,
            fee_two_a,
            fee_two_b,
            &mut ticks_two,
            amount,
            sqrt_price_limit_two,
            false,
            a_to_b_two,
        )?;
        let swap_two_input = if a_to_b_two { swap_two.amount_a } else { swap_two.amount_b };
        let swap_one_output = calculate_transfer_fee_excluded_amount(fee_intermediate, swap_two_input)?;
        let swap_one = swap_with_transfer_fee_extension(
            &ctx.pool_one,
            fee_one_a,
            fee_one_b,
            &mut ticks_one,
            swap_one_output,
            sqrt_price_limit_one,
            false,
            a_to_b_one,
        )?;
        (swap_one, swap_two)
    };
    let swap_one_output = if a_to_b_one { swap_one.amount_b } else { swap_one.amount_a };
    let swap_two_input = if a_to_b_two { swap_two.amount_a } else { swap_two.amount_b };
    if swap_one_output != swap_two_input {
        return Err(ErrorCode::IntermediateTokenAmountMismatch);
    }
    if amount_specified_is_input {
        let gross_output = if a_to_b_two { swap_two.amount_b } else { swap_two.amount_a };
        let output_amount = calculate_transfer_fee_excluded_amount(fee_output, gross_output)?;
        if output_amount < other_amount_threshold {
            return Err(ErrorCode::AmountOutBelowMinimum);
        }
    } else {
        let input_amount = if a_to_b_one { swap_one.amount_a } else { swap_one.amount_b };
        if input_amount > other_amount_threshold {
            return Err(ErrorCode::AmountInAboveMaximum);
        }
    }
    let mut pool_one = ctx.pool_one;
    pool_one.apply_swap(&swap_one, a_to_b_one, timestamp)?;
    let mut pool_two = ctx.pool_two;
    pool_two.apply_swap(&swap_two, a_to_b_two, timestamp)?;
    ctx.pool_one = pool_one;
    ctx.pool_two = pool_two;
    ticks_one.write_back(&mut ctx.tick_array_one_0);
    if let Some(array) = &mut ctx.tick_array_one_1 {
        ticks_one.write_back(array);
    }
    if let Some(array) = &mut ctx.tick_array_one_2 {
        ticks_one.write_back(array);
    }
    ticks_two.write_back(&mut ctx.tick_array_two_0);
    if let Some(array) = &mut ctx.tick_array_two_1 {
        ticks_two.write_back(array);
    }
    if let Some(array) = &mut ctx.tick_array_two_2 {
        ticks_two.write_back(array);
    }
    Ok(TwoHopSwapUpdate { swap_one, swap_two })
}

} // verus!
