use vstd::prelude::*;
use vstd::arithmetic::div_mod::{lemma_div_is_ordered, lemma_fundamental_div_mod_converse};
use crate::errors::ErrorCode;
use crate::math::{
    amount_a_delta, amount_b_delta, div_ceil, div_ceil_u128, get_amount_delta_a,
    get_amount_delta_b, get_next_sqrt_price, next_sqrt_price, amount_a_delta_result,
    amount_b_delta_result, next_sqrt_price_result,
};

verus! {

/// Fee rates are parts per million of the input amount.
pub const FEE_RATE_DENOMINATOR: u64 = 1000000;

/// Highest fee rate that a pool may charge (3%).
pub const MAX_FEE_RATE: u16 = 30000;

/// One step of a swap: the move from one sqrt price toward a target within a
/// range of constant liquidity.
#[derive(Clone, Copy, Debug, PartialEq, Eq, Structural)]
pub struct SwapStep {
    pub amount_in: u64,
    pub amount_out: u64,
    pub next_sqrt_price: u128,
    pub fee_amount: u64,
}

/// What the trader owes the pool for moving the price from `price` to `next`
/// (rounded up).
pub open spec fn input_delta(price: int, next: int, liquidity: int, a_to_b: bool) -> int {
    if a_to_b {
        amount_a_delta(next, price, liquidity, true)
    } else {
        amount_b_delta(price, next, liquidity, true)
    }
}

/// What the pool owes the trader for moving the price from `price` to `next`
/// (rounded down).
pub open spec fn output_delta(price: int, next: int, liquidity: int, a_to_b: bool) -> int {
    if a_to_b {
        amount_b_delta(next, price, liquidity, false)
    } else {
        amount_a_delta(price, next, liquidity, false)
    }
}

/// The fee charged on top of a net input: `amount_in * fee_rate / (1e6 - fee_rate)`,
/// rounded up, so that the fee is `fee_rate` parts per million of the gross input.
pub open spec fn fee_on(amount_in: int, fee_rate: int) -> int {
    div_ceil(amount_in * fee_rate, FEE_RATE_DENOMINATOR - fee_rate)
}

/// The part of a gross input that is left once the fee is set aside (rounded down).
pub open spec fn net_of_fee(amount: int, fee_rate: int) -> int {
    amount * (FEE_RATE_DENOMINATOR - fee_rate) / FEE_RATE_DENOMINATOR as int
}

pub open spec fn min(a: int, b: int) -> int {
    if a <= b { a } else { b }
}

/// What the trader owes for a move, or why it cannot be computed.
pub open spec fn input_delta_result(price: int, next: int, liquidity: int, a_to_b: bool) -> Result<u64, ErrorCode> {
    if a_to_b {
        amount_a_delta_result(next, price, liquidity, true)
    } else {
        amount_b_delta_result(price, next, liquidity, true)
    }
}

/// What the pool owes for a move, or why it cannot be computed.
pub open spec fn output_delta_result(price: int, next: int, liquidity: int, a_to_b: bool) -> Result<u64, ErrorCode> {
    if a_to_b {
        amount_b_delta_result(next, price, liquidity, false)
    } else {
        amount_a_delta_result(price, next, liquidity, false)
    }
}

/// Whether a step reaches its target: the delta to the target fits within
/// `available`; a delta that leaves 64 bits does not fit, and any other
/// failure is passed on.
pub open spec fn reaches(delta: Result<u64, ErrorCode>, available: int) -> Result<bool, ErrorCode> {
    match delta {
        Ok(m) => Ok(m <= available),
        Err(ErrorCode::TokenMaxExceeded) => Ok(false),
        Err(e) => Err(e),
    }
}

/// The result of `compute_swap_step`, case by case.
pub open spec fn swap_step_spec(
    amount_remaining: u64,
    fee_rate: u16,
    liquidity: u128,
    price: u128,
    target: u128,
    is_input: bool,
    a_to_b: bool,
) -> Result<SwapStep, ErrorCode> {
    let p = price as int;
    let t = target as int;
    let l = liquidity as int;
    if is_input {
        let net = net_of_fee(amount_remaining as int, fee_rate as int);
        match reaches(input_delta_result(p, t, l, a_to_b), net) {
            Err(e) => Err(e),
            Ok(true) => match input_delta_result(p, t, l, a_to_b) {
                Err(e) => Err(e),
                Ok(amount_in) => match output_delta_result(p, t, l, a_to_b) {
                    Err(e) => Err(e),
                    Ok(amount_out) => Ok(SwapStep {
                        amount_in,
                        amount_out,
                        next_sqrt_price: target,
                        fee_amount: min(fee_on(amount_in as int, fee_rate as int), amount_remaining - amount_in) as u64,
                    }),
                },
            },
            Ok(false) => match next_sqrt_price_result(p, t, l, net, true, a_to_b) {
                Err(e) => Err(e),
                Ok(next) => match output_delta_result(p, next as int, l, a_to_b) {
                    Err(e) => Err(e),
                    Ok(amount_out) => Ok(SwapStep {
                        amount_in: net as u64,
                        amount_out,
                        next_sqrt_price: next,
                        fee_amount: (amount_remaining - net) as u64,
                    }),
                },
            },
        }
    } else {
        let moved = match reaches(output_delta_result(p, t, l, a_to_b), amount_remaining as int) {
            Err(e) => Err(e),
            Ok(true) => match output_delta_result(p, t, l, a_to_b) {
                Err(e) => Err(e),
                Ok(out) => Ok((target, out)),
            },
            Ok(false) => match next_sqrt_price_result(p, t, l, amount_remaining as int, false, a_to_b) {
                Err(e) => Err(e),
                Ok(next) => Ok((next, amount_remaining)),
            },
        };
        match moved {
            Err(e) => Err(e),
            Ok((next, amount_out)) => match input_delta_result(p, next as int, l, a_to_b) {
                Err(e) => Err(e),
                Ok(amount_in) => Ok(SwapStep {
                    amount_in,
                    amount_out,
                    next_sqrt_price: next,
                    fee_amount: fee_on(amount_in as int, fee_rate as int) as u64,
                }),
            },
        }
    }
}

proof fn lemma_fee_bound(amount_in: int, fee_rate: int)
    requires
        0 <= amount_in,
        0 <= fee_rate <= MAX_FEE_RATE,
    ensures
        0 <= fee_on(amount_in, fee_rate) <= amount_in,
{
    let d = FEE_RATE_DENOMINATOR - fee_rate;
    assert(amount_in * fee_rate <= amount_in * d) by (nonlinear_arith)
        requires 0 <= amount_in, 0 <= fee_rate <= 30000, d == 1000000 - fee_rate;
    assert(amount_in * fee_rate >= 0) by (nonlinear_arith) requires 0 <= amount_in, 0 <= fee_rate;
    lemma_div_is_ordered(amount_in * fee_rate + d - 1, amount_in * d + d - 1, d);
    lemma_div_is_ordered(0, amount_in * fee_rate + d - 1, d);
    assert(amount_in * d + d - 1 == amount_in * d + (d - 1)) by (nonlinear_arith);
    lemma_fundamental_div_mod_converse(amount_in * d + d - 1, d, amount_in, d - 1);
}

fn fee_for_input(amount_in: u64, fee_rate: u16) -> (r: u64)
    requires
        fee_rate <= MAX_FEE_RATE,
    ensures
        r == fee_on(amount_in as int, fee_rate as int),
        r <= amount_in,
{
    proof {
        lemma_fee_bound(amount_in as int, fee_rate as int);
        assert(amount_in * fee_rate <= u64::MAX * 30000) by (nonlinear_arith)
            requires amount_in <= u64::MAX, fee_rate <= 30000;
    }
    let f = div_ceil_u128(
        (amount_in as u128) * (fee_rate as u128),
        (FEE_RATE_DENOMINATOR - fee_rate as u64) as u128,
    );
    f as u64
}

fn get_input_delta(price: u128, next: u128, liquidity: u128, a_to_b: bool) -> (r: Result<u64, ErrorCode>)
    requires
        price > 0,
        next > 0,
        a_to_b ==> next <= price,
        !a_to_b ==> price <= next,
    ensures
        r == input_delta_result(price as int, next as int, liquidity as int, a_to_b),
        match r {
            Ok(v) => v == input_delta(price as int, next as int, liquidity as int, a_to_b),
            Err(e) => e == ErrorCode::MathOverflow || (e == ErrorCode::TokenMaxExceeded
                && input_delta(price as int, next as int, liquidity as int, a_to_b) > u64::MAX),
        },
{
    if a_to_b {
        get_amount_delta_a(next, price, liquidity, true)
    } else {
        get_amount_delta_b(price, next, liquidity, true)
    }
}

fn get_output_delta(price: u128, next: u128, liquidity: u128, a_to_b: bool) -> (r: Result<u64, ErrorCode>)
    requires
        price > 0,
        next > 0,
        a_to_b ==> next <= price,
        !a_to_b ==> price <= next,
    ensures
        r == output_delta_result(price as int, next as int, liquidity as int, a_to_b),
        match r {
            Ok(v) => v == output_delta(price as int, next as int, liquidity as int, a_to_b),
            Err(e) => e == ErrorCode::MathOverflow || (e == ErrorCode::TokenMaxExceeded
                && output_delta(price as int, next as int, liquidity as int, a_to_b) > u64::MAX),
        },
{
    if a_to_b {
        get_amount_delta_b(next, price, liquidity, false)
    } else {
        get_amount_delta_a(price, next, liquidity, false)
    }
}

/// One step of a swap from `price` toward `target` at constant `liquidity`,
/// with `amount_remaining` of the specified token still to trade.
///
/// Exact input: the fee is set aside from the remaining amount first; if the
/// rest reaches the target, the step stops there and pays what the curve asks
/// plus its fee, else the rest moves the price and the fee takes the remainder.
/// Exact output: the step delivers what remains, or the whole range up to the
/// target if that is less, and charges the input the curve asks plus the fee.
pub fn compute_swap_step(
    amount_remaining: u64,
    fee_rate: u16,
    liquidity: u128,
    price: u128,
    target: u128,
    is_input: bool,
    a_to_b: bool,
) -> (r: Result<SwapStep, ErrorCode>)
    requires
        liquidity > 0,
        fee_rate <= MAX_FEE_RATE,
        0 < price,
        0 < target,
        a_to_b ==> target <= price,
        !a_to_b ==> price <= target,
    ensures
        r == swap_step_spec(amount_remaining, fee_rate, liquidity, price, target, is_input, a_to_b),
        match r {
            Ok(s) => {
                let p = price as int;
                let t = target as int;
                let l = liquidity as int;
                let next = s.next_sqrt_price as int;
                let net = net_of_fee(amount_remaining as int, fee_rate as int);
                &&& a_to_b ==> target <= s.next_sqrt_price <= price
                &&& !a_to_b ==> price <= s.next_sqrt_price <= target
                &&& is_input && input_delta(p, t, l, a_to_b) <= net ==> {
                    &&& s.next_sqrt_price == target
                    &&& s.amount_in == input_delta(p, t, l, a_to_b)
                    &&& s.fee_amount == min(fee_on(s.amount_in as int, fee_rate as int), amount_remaining - s.amount_in)
                }
                &&& is_input && input_delta(p, t, l, a_to_b) > net ==> {
                    &&& next == next_sqrt_price(p, t, l, net, true, a_to_b)
                    &&& s.amount_in == net
                    &&& s.fee_amount == amount_remaining - net
                }
                &&& is_input ==> s.amount_out == output_delta(p, next, l, a_to_b)
                &&& is_input ==> s.amount_in + s.fee_amount <= amount_remaining
                &&& is_input ==> (s.amount_in + s.fee_amount == amount_remaining
                    || s.next_sqrt_price == target)
                &&& !is_input && output_delta(p, t, l, a_to_b) <= amount_remaining ==> {
                    &&& s.next_sqrt_price == target
                    &&& s.amount_out == output_delta(p, t, l, a_to_b)
                }
                &&& !is_input && output_delta(p, t, l, a_to_b) > amount_remaining ==> {
                    &&& next == next_sqrt_price(p, t, l, amount_remaining as int, false, a_to_b)
                    &&& s.amount_out == amount_remaining
                }
                &&& !is_input ==> s.amount_out <= amount_remaining
                &&& !is_input ==> (s.amount_out == amount_remaining || s.next_sqrt_price == target)
                &&& !is_input ==> s.amount_in == input_delta(p, next, l, a_to_b)
                &&& !is_input ==> s.fee_amount == fee_on(s.amount_in as int, fee_rate as int)
            },
            Err(e) => e == ErrorCode::MathOverflow || e == ErrorCode::TokenMaxExceeded,
        },
{
    if is_input {
        proof {
            assert(amount_remaining * (1000000 - fee_rate) <= u64::MAX * 1000000) by (nonlinear_arith)
                requires amount_remaining <= u64::MAX, fee_rate <= 30000;
            assert(amount_remaining * (1000000 - fee_rate) / 1000000 <= amount_remaining) by (nonlinear_arith)
                requires fee_rate <= 30000, amount_remaining >= 0;
        }
        let net = ((amount_remaining as u128) * ((FEE_RATE_DENOMINATOR - fee_rate as u64) as u128)
            / (FEE_RATE_DENOMINATOR as u128)) as u64;
        let reach = match get_input_delta(price, target, liquidity, a_to_b) {
            Ok(m) => m <= net,
            Err(ErrorCode::TokenMaxExceeded) => false,
            Err(e) => return Err(e),
        };
        if reach {
            let amount_in = get_input_delta(price, target, liquidity, a_to_b)?;
            let fee = fee_for_input(amount_in, fee_rate);
            // The fee never takes more than what remains.
            let fee = if fee > amount_remaining - amount_in { amount_remaining - amount_in } else { fee };
            let amount_out = get_output_delta(price, target, liquidity, a_to_b)?;
            Ok(SwapStep { amount_in, amount_out, next_sqrt_price: target, fee_amount: fee })
        } else {
            let next = get_next_sqrt_price(price, target, liquidity, net, true, a_to_b)?;
            let amount_out = get_output_delta(price, next, liquidity, a_to_b)?;
            Ok(SwapStep {
                amount_in: net,
                amount_out,
                next_sqrt_price: next,
                fee_amount: amount_remaining - net,
            })
        }
    } else {
        let reach = match get_output_delta(price, target, liquidity, a_to_b) {
            Ok(m) => m <= amount_remaining,
            Err(ErrorCode::TokenMaxExceeded) => false,
            Err(e) => return Err(e),
        };
        let (next, amount_out) = if reach {
            (target, get_output_delta(price, target, liquidity, a_to_b)?)
        } else {
            (get_next_sqrt_price(price, target, liquidity, amount_remaining, false, a_to_b)?, amount_remaining)
        };
        let amount_in = get_input_delta(price, next, liquidity, a_to_b)?;
        let fee = fee_for_input(amount_in, fee_rate);
        Ok(SwapStep { amount_in, amount_out, next_sqrt_price: next, fee_amount: fee })
    }
}

} // verus!
