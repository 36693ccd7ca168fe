use vstd::prelude::*;
use crate::errors::ErrorCode;
use crate::math::{
    clamp, sqrt_price_at, sqrt_price_from_tick_index, tick_at_price, tick_index_from_sqrt_price,
    MAX_SQRT_PRICE, MAX_TICK_INDEX, MIN_SQRT_PRICE, MIN_TICK_INDEX, Q64,
};
use crate::pool::{Pool, SwapResult, MAX_PROTOCOL_FEE_RATE, PROTOCOL_FEE_RATE_DENOMINATOR};
use crate::step::{compute_swap_step, swap_step_spec};
use crate::tick::{
    apply_liquidity_net, liquidity_after_crossing, next_tick_spec, wrapping_sub_u128, Tick, TickSequence,
};
use crate::transfer_fee::{
    calculate_transfer_fee_excluded_amount, calculate_transfer_fee_included_amount, fee_excluded,
    fee_included, TransferFeeConfig,
};

verus! {

/// The protocol's share of a fee: `fee * protocol_fee_rate / 10000`, rounded down.
pub open spec fn protocol_share(fee: int, protocol_fee_rate: int) -> int {
    fee * protocol_fee_rate / PROTOCOL_FEE_RATE_DENOMINATOR as int
}

/// Growth of the fee per unit of liquidity: `lp_fee * 2^64 / liquidity`, rounded down.
pub open spec fn fee_growth_delta(lp_fee: int, liquidity: int) -> int {
    lp_fee * Q64 / liquidity
}

/// Splits a step's fee into the protocol's share and the fee growth that the
/// rest adds for the liquidity providers.
pub fn split_fee(fee: u64, protocol_fee_rate: u16, liquidity: u128) -> (r: (u64, u128))
    requires
        liquidity > 0,
        protocol_fee_rate <= MAX_PROTOCOL_FEE_RATE,
    ensures
        r.0 == protocol_share(fee as int, protocol_fee_rate as int),
        r.0 <= fee,
        r.1 == fee_growth_delta(fee - r.0, liquidity as int),
{
    proof {
        assert(fee * protocol_fee_rate <= fee * 10000) by (nonlinear_arith)
            requires protocol_fee_rate <= 2500, fee >= 0;
        assert(fee * protocol_fee_rate / 10000 <= fee) by (nonlinear_arith)
            requires fee * protocol_fee_rate <= fee * 10000, fee >= 0, protocol_fee_rate >= 0;
        assert(fee * protocol_fee_rate <= u64::MAX * 2500) by (nonlinear_arith)
            requires protocol_fee_rate <= 2500, fee <= u64::MAX;
    }
    let protocol = ((fee as u128) * (protocol_fee_rate as u128) / (PROTOCOL_FEE_RATE_DENOMINATOR as u128)) as u64;
    let lp_fee = fee - protocol;
    proof {
        assert(lp_fee * Q64 <= u64::MAX * Q64) by (nonlinear_arith) requires lp_fee <= u64::MAX;
        assert(lp_fee * Q64 / (liquidity as int) <= lp_fee * Q64) by (nonlinear_arith)
            requires liquidity >= 1, lp_fee >= 0;
    }
    let growth = (lp_fee as u128) * Q64 / liquidity;
    (protocol, growth)
}

/// The price limit that a swap works with: 0 stands for the end of the price
/// domain in the direction of travel.
pub open spec fn effective_limit(sqrt_price_limit: u128, a_to_b: bool) -> int {
    if sqrt_price_limit == 0 {
        if a_to_b { MIN_SQRT_PRICE as int } else { MAX_SQRT_PRICE as int }
    } else {
        sqrt_price_limit as int
    }
}

/// A limit is valid when it lies in the price domain, strictly on the side
/// of the current price toward which the swap moves it.
pub open spec fn limit_is_valid(sqrt_price: u128, sqrt_price_limit: u128, a_to_b: bool) -> bool {
    let l = effective_limit(sqrt_price_limit, a_to_b);
    &&& MIN_SQRT_PRICE <= l <= MAX_SQRT_PRICE
    &&& if a_to_b { l < sqrt_price } else { l > sqrt_price }
}

/// The amount of the token whose quantity the caller fixed.
pub open spec fn specified_amount(r: SwapResult, is_input: bool, a_to_b: bool) -> u64 {
    if a_to_b == is_input { r.amount_a } else { r.amount_b }
}

/// The amount of the other token, which the swap computed.
pub open spec fn calculated_amount(r: SwapResult, is_input: bool, a_to_b: bool) -> u64 {
    if a_to_b == is_input { r.amount_b } else { r.amount_a }
}

/// The shape of a tick sequence: where it starts, its spacing and its size.
pub open spec fn same_shape(a: TickSequence, b: TickSequence) -> bool {
    &&& a.start_tick_index == b.start_tick_index
    &&& a.tick_spacing == b.tick_spacing
    &&& a.ticks@.len() == b.ticks@.len()
}

/// Where a swap stands between two steps.
#[derive(Clone, Copy, Debug, PartialEq, Eq, Structural)]
pub struct WalkState {
    /// Amount of the specified token still to trade.
    pub remaining: u64,
    /// Amount of the other token computed so far (with fees, for exact output).
    pub calculated: u64,
    pub sqrt_price: u128,
    pub liquidity: u128,
    pub tick: i32,
    /// Fee growth of the input token.
    pub fee_growth: u128,
    pub protocol_fee: u64,
    pub fee_amount: u64,
}

/// How far a walk may still go before it leaves the loaded ticks: it falls
/// with every crossed tick.
pub open spec fn walk_measure(tick: int, start: int, end: int, a_to_b: bool) -> int {
    if a_to_b { tick - start + 1 } else { end - tick }
}

/// The price a step aims at: the next tick's price, held between the
/// current price and the limit.
pub open spec fn step_target(tick_price: int, price: int, limit: int, a_to_b: bool) -> int {
    if a_to_b {
        if tick_price < limit { limit } else if tick_price > price { price } else { tick_price }
    } else {
        if tick_price > limit { limit } else if tick_price < price { price } else { tick_price }
    }
}

/// A crossed tick: its fee growth outside is flipped against the globals.
pub open spec fn crossed_tick(t: Tick, growth_a: u128, growth_b: u128) -> Tick {
    Tick {
        fee_growth_outside_a: wrapping_sub_u128(growth_a, t.fee_growth_outside_a),
        fee_growth_outside_b: wrapping_sub_u128(growth_b, t.fee_growth_outside_b),
        ..t
    }
}

/// One step of the walk from `s`: the next tick, the step toward it, the
/// fee accounting and, where the step ends on the tick, its crossing.
/// Gives whether the walk is done, the new state and the new ticks.
pub open spec fn walk_advance(
    pool: Pool,
    start: int,
    spacing: int,
    ticks: Seq<Tick>,
    limit: u128,
    is_input: bool,
    a_to_b: bool,
    s: WalkState,
) -> Result<(bool, WalkState, Seq<Tick>), ErrorCode> {
    let end = start + ticks.len() * spacing;
    if s.liquidity == 0 {
        Err(ErrorCode::ZeroLiquidity)
    } else if !(start <= s.tick < end) {
        Err(ErrorCode::TickSequenceExhausted)
    } else {
        let (idx, slot) = next_tick_spec(start, spacing, ticks, s.tick as int, a_to_b);
        let tick_price = sqrt_price_at(clamp(idx, MIN_TICK_INDEX as int, MAX_TICK_INDEX as int));
        let target = step_target(tick_price, s.sqrt_price as int, limit as int, a_to_b);
        match swap_step_spec(s.remaining, pool.fee_rate, s.liquidity, s.sqrt_price, target as u128, is_input, a_to_b) {
            Err(e) => Err(e),
            Ok(step) => {
                let remaining = if is_input {
                    s.remaining - (step.amount_in + step.fee_amount)
                } else {
                    s.remaining - step.amount_out
                };
                let calculated = if is_input {
                    s.calculated + step.amount_out
                } else {
                    s.calculated + step.amount_in + step.fee_amount
                };
                let protocol = protocol_share(step.fee_amount as int, pool.protocol_fee_rate as int);
                let growth = fee_growth_delta(step.fee_amount - protocol, s.liquidity as int);
                if calculated > u64::MAX || s.fee_amount + step.fee_amount > u64::MAX {
                    Err(ErrorCode::TokenMaxExceeded)
                } else if s.fee_growth + growth > u128::MAX {
                    Err(ErrorCode::MathOverflow)
                } else {
                    let fee_growth = (s.fee_growth + growth) as u128;
                    let done = remaining == 0 || step.next_sqrt_price == limit;
                    let next = WalkState {
                        remaining: remaining as u64,
                        calculated: calculated as u64,
                        sqrt_price: step.next_sqrt_price,
                        fee_growth,
                        protocol_fee: (s.protocol_fee + protocol) as u64,
                        fee_amount: (s.fee_amount + step.fee_amount) as u64,
                        ..s
                    };
                    if step.next_sqrt_price == target && (target != limit || target == tick_price) {
                        let crossed = if a_to_b { idx - 1 } else { idx };
                        match slot {
                            Some(k) => {
                                let growth_a = if a_to_b { fee_growth } else { pool.fee_growth_global_a };
                                let growth_b = if a_to_b { pool.fee_growth_global_b } else { fee_growth };
                                let liquidity = liquidity_after_crossing(s.liquidity as int, ticks[k].liquidity_net as int, a_to_b);
                                if !(0 <= liquidity <= u128::MAX) {
                                    Err(ErrorCode::MathOverflow)
                                } else {
                                    Ok((done, WalkState { liquidity: liquidity as u128, tick: crossed as i32, ..next },
                                        ticks.update(k, crossed_tick(ticks[k], growth_a, growth_b))))
                                }
                            },
                            None => Ok((done, WalkState { tick: crossed as i32, ..next }, ticks)),
                        }
                    } else if step.next_sqrt_price != s.sqrt_price {
                        Ok((done, WalkState { tick: tick_at_price(step.next_sqrt_price as int) as i32, ..next }, ticks))
                    } else {
                        Ok((done, next, ticks))
                    }
                }
            },
        }
    }
}

/// The whole walk from `s`: steps until the amount is traded or the price
/// reaches the limit. (A step that neither ends the walk nor moves it
/// toward the edge of the loaded ticks does not occur; the walk stops there.)
pub open spec fn walk(
    pool: Pool,
    start: int,
    spacing: int,
    ticks: Seq<Tick>,
    limit: u128,
    is_input: bool,
    a_to_b: bool,
    s: WalkState,
) -> Result<(WalkState, Seq<Tick>), ErrorCode>
    decreases walk_measure(s.tick as int, start, start + ticks.len() * spacing, a_to_b),
{
    match walk_advance(pool, start, spacing, ticks, limit, is_input, a_to_b, s) {
        Err(e) => Err(e),
        Ok((done, s2, t2)) => if done {
            Ok((s2, t2))
        } else if t2.len() == ticks.len() && 0 <= walk_measure(s2.tick as int, start, start + ticks.len() * spacing, a_to_b)
            < walk_measure(s.tick as int, start, start + ticks.len() * spacing, a_to_b) {
            walk(pool, start, spacing, t2, limit, is_input, a_to_b, s2)
        } else {
            Err(ErrorCode::TickSequenceExhausted)
        },
    }
}

/// The update of a finished walk.
pub open spec fn walk_result(pool: Pool, amount: u64, is_input: bool, a_to_b: bool, s: WalkState) -> SwapResult {
    let consumed = (amount - s.remaining) as u64;
    SwapResult {
        amount_a: if a_to_b == is_input { consumed } else { s.calculated },
        amount_b: if a_to_b == is_input { s.calculated } else { consumed },
        next_liquidity: s.liquidity,
        next_tick_index: s.tick,
        next_sqrt_price: s.sqrt_price,
        next_fee_growth_global_a: if a_to_b { s.fee_growth } else { pool.fee_growth_global_a },
        next_fee_growth_global_b: if a_to_b { pool.fee_growth_global_b } else { s.fee_growth },
        protocol_fee: s.protocol_fee,
        fee_amount: s.fee_amount,
    }
}

/// What `swap` computes: the update and the ticks after it, or the error.
#[verifier::opaque]
pub open spec fn swap_spec(
    pool: Pool,
    start: int,
    spacing: int,
    ticks: Seq<Tick>,
    amount: u64,
    sqrt_price_limit: u128,
    is_input: bool,
    a_to_b: bool,
) -> Result<(SwapResult, Seq<Tick>), ErrorCode> {
    let limit = effective_limit(sqrt_price_limit, a_to_b) as u128;
    if amount == 0 {
        Err(ErrorCode::ZeroTradableAmount)
    } else if !limit_is_valid(pool.sqrt_price, sqrt_price_limit, a_to_b) {
        Err(ErrorCode::InvalidSqrtPriceLimit)
    } else if spacing != pool.tick_spacing || !(start <= pool.tick_current_index < start + ticks.len() * spacing) {
        Err(ErrorCode::InvalidTickArraySequence)
    } else {
        let initial = WalkState {
            remaining: amount,
            calculated: 0,
            sqrt_price: pool.sqrt_price,
            liquidity: pool.liquidity,
            tick: pool.tick_current_index,
            fee_growth: if a_to_b { pool.fee_growth_global_a } else { pool.fee_growth_global_b },
            protocol_fee: 0,
            fee_amount: 0,
        };
        match walk(pool, start, spacing, ticks, limit, is_input, a_to_b, initial) {
            Err(e) => Err(e),
            Ok((s, t)) => Ok((walk_result(pool, amount, is_input, a_to_b, s), t)),
        }
    }
}

/// The engine's result alone.
pub open spec fn swap_outcome(pool: Pool, ticks: TickSequence, amount: u64, sqrt_price_limit: u128, is_input: bool, a_to_b: bool) -> Result<SwapResult, ErrorCode> {
    match swap_spec(pool, ticks.start_tick_index as int, ticks.tick_spacing as int, ticks.ticks@, amount, sqrt_price_limit, is_input, a_to_b) {
        Ok((u, _)) => Ok(u),
        Err(e) => Err(e),
    }
}

/// Walks the price curve of `pool` from its current price in direction
/// `a_to_b` (price falls when true), step by step across the ticks of
/// `ticks`, until `amount` of the specified token is traded or the price
/// reaches the limit. The pool is read, not changed; crossed ticks in `ticks`
/// have their fee growth outside flipped.
///
/// Fails with `ZeroTradableAmount` for a zero amount, `InvalidSqrtPriceLimit`
/// for a limit that `limit_is_valid` refuses, `InvalidTickArraySequence` when
/// the sequence has another spacing than the pool, `TickSequenceExhausted`
/// when the walk leaves the loaded ticks, `ZeroLiquidity` when a step would
/// trade against no liquidity, and `MathOverflow` or `TokenMaxExceeded` where
/// a number leaves its word.
pub fn swap(
    pool: &Pool,
    ticks: &mut TickSequence,
    amount: u64,
    sqrt_price_limit: u128,
    amount_specified_is_input: bool,
    a_to_b: bool,
) -> (r: Result<SwapResult, ErrorCode>)
    requires
        pool.wf(),
        old(ticks).wf(),
    ensures
        final(ticks).wf(),
        same_shape(*final(ticks), *old(ticks)),
        r == swap_outcome(*pool, *old(ticks), amount, sqrt_price_limit, amount_specified_is_input, a_to_b),
        match swap_spec(*pool, old(ticks).start_tick_index as int, old(ticks).tick_spacing as int, old(ticks).ticks@,
            amount, sqrt_price_limit, amount_specified_is_input, a_to_b) {
            Ok((_, t)) => final(ticks).ticks@ == t,
            Err(_) => true,
        },
        amount == 0 ==> r == Err::<SwapResult, ErrorCode>(ErrorCode::ZeroTradableAmount),
        amount > 0 && !limit_is_valid(pool.sqrt_price, sqrt_price_limit, a_to_b)
            ==> r == Err::<SwapResult, ErrorCode>(ErrorCode::InvalidSqrtPriceLimit),
        match r {
            Ok(u) => {
                let limit = effective_limit(sqrt_price_limit, a_to_b);
                let specified = specified_amount(u, amount_specified_is_input, a_to_b);
                &&& amount > 0
                &&& limit_is_valid(pool.sqrt_price, sqrt_price_limit, a_to_b)
                &&& a_to_b ==> limit <= u.next_sqrt_price <= pool.sqrt_price
                &&& !a_to_b ==> pool.sqrt_price <= u.next_sqrt_price <= limit
                &&& u.next_fee_growth_global_a >= pool.fee_growth_global_a
                &&& u.next_fee_growth_global_b >= pool.fee_growth_global_b
                &&& a_to_b ==> u.next_fee_growth_global_b == pool.fee_growth_global_b
                &&& !a_to_b ==> u.next_fee_growth_global_a == pool.fee_growth_global_a
                &&& specified <= amount
                &&& specified == amount || u.next_sqrt_price == limit
                &&& u.protocol_fee <= u.fee_amount
                &&& amount_specified_is_input ==> u.fee_amount <= specified
            },
            Err(_) => true,
        },
{
    proof {
        reveal(swap_spec);
    }
    let ghost shape = *ticks;
    if amount == 0 {
        return Err(ErrorCode::ZeroTradableAmount);
    }
    let limit: u128 = if sqrt_price_limit == 0 {
        if a_to_b { MIN_SQRT_PRICE } else { MAX_SQRT_PRICE }
    } else {
        sqrt_price_limit
    };
    if limit < MIN_SQRT_PRICE || limit > MAX_SQRT_PRICE || (a_to_b && limit >= pool.sqrt_price)
        || (!a_to_b && limit <= pool.sqrt_price) {
        return Err(ErrorCode::InvalidSqrtPriceLimit);
    }
    if ticks.tick_spacing != pool.tick_spacing {
        return Err(ErrorCode::InvalidTickArraySequence);
    }
    let is_input = amount_specified_is_input;
    if !ticks.covers_exec(pool.tick_current_index) {
        return Err(ErrorCode::InvalidTickArraySequence);
    }
    let ghost start = ticks.start_tick_index as int;
    let ghost spacing = ticks.tick_spacing as int;
    let ghost end = ticks.end();
    let mut state = WalkState {
        remaining: amount,
        calculated: 0,
        sqrt_price: pool.sqrt_price,
        liquidity: pool.liquidity,
        tick: pool.tick_current_index,
        fee_growth: if a_to_b { pool.fee_growth_global_a } else { pool.fee_growth_global_b },
        protocol_fee: 0,
        fee_amount: 0,
    };
    let ghost initial = state;
    proof {
        assert(swap_spec(*pool, start, spacing, shape.ticks@, amount, sqrt_price_limit, is_input, a_to_b) == match walk(*pool, start, spacing, shape.ticks@, limit, is_input, a_to_b, initial) {
                Ok((s, t)) => Ok((walk_result(*pool, amount, is_input, a_to_b, s), t)),
                Err(e) => Err(e),
            });
    }
    loop
        invariant_except_break
            walk(*pool, start, spacing, ticks.ticks@, limit, is_input, a_to_b, state)
                == walk(*pool, start, spacing, shape.ticks@, limit, is_input, a_to_b, initial),
        invariant
            swap_spec(*pool, start, spacing, shape.ticks@, amount, sqrt_price_limit, is_input, a_to_b) == match walk(*pool, start, spacing, shape.ticks@, limit, is_input, a_to_b, initial) {
                    Ok((s, t)) => Ok((walk_result(*pool, amount, is_input, a_to_b, s), t)),
                    Err(e) => Err(e),
                },
            ticks.wf(),
            same_shape(*ticks, shape),
            shape == *old(ticks),
            start == ticks.start_tick_index,
            spacing == ticks.tick_spacing,
            end == ticks.end(),
            pool.wf(),
            amount > 0,
            is_input == amount_specified_is_input,
            limit_is_valid(pool.sqrt_price, sqrt_price_limit, a_to_b),
            limit == effective_limit(sqrt_price_limit, a_to_b),
            MIN_SQRT_PRICE <= limit <= MAX_SQRT_PRICE,
            a_to_b ==> limit <= state.sqrt_price <= pool.sqrt_price,
            !a_to_b ==> pool.sqrt_price <= state.sqrt_price <= limit,
            state.fee_growth >= initial.fee_growth,
            initial.fee_growth == if a_to_b { pool.fee_growth_global_a } else { pool.fee_growth_global_b },
            state.remaining <= amount,
            state.protocol_fee <= state.fee_amount,
            is_input ==> state.fee_amount <= amount - state.remaining,
        ensures
            state.remaining == 0 || state.sqrt_price == limit,
            walk(*pool, start, spacing, shape.ticks@, limit, is_input, a_to_b, initial)
                == Ok::<(WalkState, Seq<Tick>), ErrorCode>((state, ticks.ticks@)),
        decreases walk_measure(state.tick as int, start, end, a_to_b),
    {
        let ghost head = state;
        let ghost head_ticks = ticks.ticks@;
        let (done, next) = advance(pool, ticks, state, limit, is_input, a_to_b)?;
        state = next;
        if done {
            break;
        }
    }
    Ok(SwapResult {
        amount_a: if a_to_b == is_input { amount - state.remaining } else { state.calculated },
        amount_b: if a_to_b == is_input { state.calculated } else { amount - state.remaining },
        next_liquidity: state.liquidity,
        next_tick_index: state.tick,
        next_sqrt_price: state.sqrt_price,
        next_fee_growth_global_a: if a_to_b { state.fee_growth } else { pool.fee_growth_global_a },
        next_fee_growth_global_b: if a_to_b { pool.fee_growth_global_b } else { state.fee_growth },
        protocol_fee: state.protocol_fee,
        fee_amount: state.fee_amount,
    })
}

/// One step of the walk (see `walk_advance`), made on `ticks`.
fn advance(
    pool: &Pool,
    ticks: &mut TickSequence,
    s: WalkState,
    limit: u128,
    is_input: bool,
    a_to_b: bool,
) -> (r: Result<(bool, WalkState), ErrorCode>)
    requires
        pool.wf(),
        old(ticks).wf(),
        MIN_SQRT_PRICE <= limit <= MAX_SQRT_PRICE,
        a_to_b ==> limit <= s.sqrt_price,
        !a_to_b ==> s.sqrt_price <= limit,
        s.protocol_fee <= s.fee_amount,
        MIN_SQRT_PRICE <= s.sqrt_price,
    ensures
        final(ticks).wf(),
        same_shape(*final(ticks), *old(ticks)),
        match walk_advance(*pool, old(ticks).start_tick_index as int, old(ticks).tick_spacing as int,
            old(ticks).ticks@, limit, is_input, a_to_b, s) {
            Ok((done, n, t)) => r == Ok::<(bool, WalkState), ErrorCode>((done, n)) && final(ticks).ticks@ == t,
            Err(e) => r == Err::<(bool, WalkState), ErrorCode>(e),
        },
        match r {
            Ok((done, n)) => {
                let end = old(ticks).end();
                let start = old(ticks).start_tick_index as int;
                &&& a_to_b ==> limit <= n.sqrt_price <= s.sqrt_price
                &&& !a_to_b ==> s.sqrt_price <= n.sqrt_price <= limit
                &&& n.fee_growth >= s.fee_growth
                &&& n.remaining <= s.remaining
                &&& n.protocol_fee <= n.fee_amount
                &&& is_input ==> n.fee_amount - s.fee_amount <= s.remaining - n.remaining
                &&& done == (n.remaining == 0 || n.sqrt_price == limit)
                &&& !done ==> 0 <= walk_measure(n.tick as int, start, end, a_to_b)
                    < walk_measure(s.tick as int, start, end, a_to_b)
            },
            Err(_) => true,
        },
{
    let ghost start = ticks.start_tick_index as int;
    let ghost end = ticks.end();
    let mut remaining = s.remaining;
    let mut calculated = s.calculated;
    let price = s.sqrt_price;
    let mut liquidity = s.liquidity;
    let mut tick = s.tick;
    if liquidity == 0 {
        return Err(ErrorCode::ZeroLiquidity);
    }
    let (idx, slot) = ticks.next_initialized_tick(tick, a_to_b)?;
    let bounded = if idx < MIN_TICK_INDEX {
        MIN_TICK_INDEX
    } else if idx > MAX_TICK_INDEX {
        MAX_TICK_INDEX
    } else {
        idx
    };
    let tick_price = sqrt_price_from_tick_index(bounded);
    let target = if a_to_b {
        if tick_price < limit { limit } else if tick_price > price { price } else { tick_price }
    } else {
        if tick_price > limit { limit } else if tick_price < price { price } else { tick_price }
    };
    let step = compute_swap_step(remaining, pool.fee_rate, liquidity, price, target, is_input, a_to_b)?;
    if is_input {
        remaining = remaining - (step.amount_in + step.fee_amount);
        calculated = match calculated.checked_add(step.amount_out) {
            Some(v) => v,
            None => return Err(ErrorCode::TokenMaxExceeded),
        };
    } else {
        remaining = remaining - step.amount_out;
        let owed = (step.amount_in as u128) + (step.fee_amount as u128);
        let total = (calculated as u128) + owed;
        if total > u64::MAX as u128 {
            return Err(ErrorCode::TokenMaxExceeded);
        }
        calculated = total as u64;
    }
    let (protocol_fee, growth) = split_fee(step.fee_amount, pool.protocol_fee_rate, liquidity);
    let fee_total = match s.fee_amount.checked_add(step.fee_amount) {
        Some(v) => v,
        None => return Err(ErrorCode::TokenMaxExceeded),
    };
    let protocol_total = s.protocol_fee + protocol_fee;
    let fee_growth = match s.fee_growth.checked_add(growth) {
        Some(v) => v,
        None => return Err(ErrorCode::MathOverflow),
    };
    let crossing = step.next_sqrt_price == target && (target != limit || target == tick_price);
    if crossing {
        if let Some(k) = slot {
            let (growth_a, growth_b) = if a_to_b {
                (fee_growth, pool.fee_growth_global_b)
            } else {
                (pool.fee_growth_global_a, fee_growth)
            };
            let net = ticks.cross(k, growth_a, growth_b);
            liquidity = apply_liquidity_net(liquidity, net, a_to_b)?;
        }
        tick = if a_to_b { idx - 1 } else { idx };
    } else if step.next_sqrt_price != price {
        tick = tick_index_from_sqrt_price(step.next_sqrt_price);
    }
    let next = WalkState {
        remaining,
        calculated,
        sqrt_price: step.next_sqrt_price,
        liquidity,
        tick,
        fee_growth,
        protocol_fee: protocol_total,
        fee_amount: fee_total,
    };
    let done = remaining == 0 || step.next_sqrt_price == limit;
    Ok((done, next))
}

/// Input-side amount of a swap result.
pub open spec fn input_amount(r: SwapResult, a_to_b: bool) -> u64 {
    if a_to_b { r.amount_a } else { r.amount_b }
}

/// Output-side amount of a swap result.
pub open spec fn output_amount(r: SwapResult, a_to_b: bool) -> u64 {
    if a_to_b { r.amount_b } else { r.amount_a }
}

/// `u` with its input-side amount replaced by `gross`.
pub open spec fn with_input(u: SwapResult, a_to_b: bool, gross: u64) -> SwapResult {
    if a_to_b { SwapResult { amount_a: gross, ..u } } else { SwapResult { amount_b: gross, ..u } }
}

/// What `swap_with_transfer_fee_extension` computes: the update and the
/// ticks after it, or the error.
pub open spec fn swap_with_fee_spec(
    pool: Pool,
    fee_a: Option<TransferFeeConfig>,
    fee_b: Option<TransferFeeConfig>,
    start: int,
    spacing: int,
    ticks: Seq<Tick>,
    amount: u64,
    sqrt_price_limit: u128,
    is_input: bool,
    a_to_b: bool,
) -> Result<(SwapResult, Seq<Tick>), ErrorCode> {
    let fee_in = if a_to_b { fee_a } else { fee_b };
    let fee_out = if a_to_b { fee_b } else { fee_a };
    if is_input {
        match fee_excluded(fee_in, amount) {
            None => Err(ErrorCode::TransferFeeCalculationError),
            Some(net) => match swap_spec(pool, start, spacing, ticks, net, sqrt_price_limit, true, a_to_b) {
                Err(e) => Err(e),
                Ok((u, t)) => {
                    let traded = input_amount(u, a_to_b);
                    let gross = if traded == net { Some(amount) } else { fee_included(fee_in, traded) };
                    match gross {
                        None => Err(ErrorCode::TransferFeeCalculationError),
                        Some(g) => Ok((with_input(u, a_to_b, g), t)),
                    }
                },
            },
        }
    } else {
        match fee_included(fee_out, amount) {
            None => Err(ErrorCode::TransferFeeCalculationError),
            Some(gross_out) => match swap_spec(pool, start, spacing, ticks, gross_out, sqrt_price_limit, false, a_to_b) {
                Err(e) => Err(e),
                Ok((u, t)) => match fee_included(fee_in, input_amount(u, a_to_b)) {
                    None => Err(ErrorCode::TransferFeeCalculationError),
                    Some(g) => Ok((with_input(u, a_to_b, g), t)),
                },
            },
        }
    }
}

/// The result alone of `swap_with_fee_spec`.
pub open spec fn swap_with_fee_outcome(
    pool: Pool,
    fee_a: Option<TransferFeeConfig>,
    fee_b: Option<TransferFeeConfig>,
    ticks: TickSequence,
    amount: u64,
    sqrt_price_limit: u128,
    is_input: bool,
    a_to_b: bool,
) -> Result<SwapResult, ErrorCode> {
    match swap_with_fee_spec(pool, fee_a, fee_b, ticks.start_tick_index as int, ticks.tick_spacing as int, ticks.ticks@,
        amount, sqrt_price_limit, is_input, a_to_b) {
        Ok((u, _)) => Ok(u),
        Err(e) => Err(e),
    }
}

/// A swap whose tokens may charge a fee on every transfer. Exact input:
/// `amount` is what leaves the trader; the pool trades what arrives of it,
/// and the input reported is `amount` when all of that was traded, else the
/// amount that must be sent for the traded part to arrive. Exact output:
/// `amount` is what must reach the trader; the pool pays out what must be
/// sent for that to arrive, and the input reported is what must be sent for
/// the pool's input to arrive. Amounts in the result are gross: what leaves
/// the sender.
pub fn swap_with_transfer_fee_extension(
    pool: &Pool,
    fee_a: Option<TransferFeeConfig>,
    fee_b: Option<TransferFeeConfig>,
    ticks: &mut TickSequence,
    amount: u64,
    sqrt_price_limit: u128,
    amount_specified_is_input: bool,
    a_to_b: bool,
) -> (r: Result<SwapResult, ErrorCode>)
    requires
        pool.wf(),
        old(ticks).wf(),
    ensures
        final(ticks).wf(),
        same_shape(*final(ticks), *old(ticks)),
        r == swap_with_fee_outcome(*pool, fee_a, fee_b, *old(ticks), amount, sqrt_price_limit, amount_specified_is_input, a_to_b),
        match swap_with_fee_spec(*pool, fee_a, fee_b, old(ticks).start_tick_index as int, old(ticks).tick_spacing as int,
            old(ticks).ticks@, amount, sqrt_price_limit, amount_specified_is_input, a_to_b) {
            Ok((_, t)) => final(ticks).ticks@ == t,
            Err(_) => true,
        },
        match r {
            Ok(u) => {
                let limit = effective_limit(sqrt_price_limit, a_to_b);
                &&& limit_is_valid(pool.sqrt_price, sqrt_price_limit, a_to_b)
                &&& a_to_b ==> limit <= u.next_sqrt_price <= pool.sqrt_price
                &&& !a_to_b ==> pool.sqrt_price <= u.next_sqrt_price <= limit
                &&& u.next_fee_growth_global_a >= pool.fee_growth_global_a
                &&& u.next_fee_growth_global_b >= pool.fee_growth_global_b
                &&& u.protocol_fee <= u.fee_amount
                &&& amount_specified_is_input ==> (input_amount(u, a_to_b) == amount
                    || u.next_sqrt_price == limit)
            },
            Err(_) => true,
        },
{
    let (fee_in, fee_out) = if a_to_b { (fee_a, fee_b) } else { (fee_b, fee_a) };
    if amount_specified_is_input {
        let net_in = calculate_transfer_fee_excluded_amount(fee_in, amount)?;
        let u = swap(pool, ticks, net_in, sqrt_price_limit, true, a_to_b)?;
        let traded = if a_to_b { u.amount_a } else { u.amount_b };
        let gross_in = if traded == net_in {
            amount
        } else {
            calculate_transfer_fee_included_amount(fee_in, traded)?
        };
        Ok(if a_to_b { SwapResult { amount_a: gross_in, ..u } } else { SwapResult { amount_b: gross_in, ..u } })
    } else {
        let gross_out = calculate_transfer_fee_included_amount(fee_out, amount)?;
        let u = swap(pool, ticks, gross_out, sqrt_price_limit, false, a_to_b)?;
        let owed = if a_to_b { u.amount_a } else { u.amount_b };
        let gross_in = calculate_transfer_fee_included_amount(fee_in, owed)?;
        Ok(if a_to_b { SwapResult { amount_a: gross_in, ..u } } else { SwapResult { amount_b: gross_in, ..u } })
    }
}

} // verus!
