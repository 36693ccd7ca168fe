use vstd::prelude::*;
use vstd::arithmetic::div_mod::{
    lemma_div_is_ordered, lemma_div_is_ordered_by_denominator, lemma_div_pos_is_pos,
    lemma_fundamental_div_mod_converse,
};
use crate::errors::ErrorCode;

verus! {

/// One in Q64.64 fixed point.
pub const Q64: u128 = 18446744073709551616;

pub open spec fn div_ceil(n: int, d: int) -> int {
    (n + d - 1) / d
}

pub open spec fn div_round(n: int, d: int, round_up: bool) -> int {
    if round_up {
        div_ceil(n, d)
    } else {
        n / d
    }
}

proof fn lemma_div_ceil(n: int, d: int)
    requires
        n >= 0,
        d > 0,
    ensures
        div_ceil(n, d) == n / d + (if n % d == 0 { 0int } else { 1int }),
        n / d <= div_ceil(n, d),
        div_ceil(n, d) * d >= n,
{
    let q = n / d;
    let m = n % d;
    assert(n == q * d + m) by {
        vstd::arithmetic::div_mod::lemma_fundamental_div_mod(n, d);
        vstd::arithmetic::mul::lemma_mul_is_commutative(q, d);
    }
    if m == 0 {
        lemma_fundamental_div_mod_converse(n + d - 1, d, q, d - 1);
        assert(div_ceil(n, d) * d >= n) by (nonlinear_arith)
            requires div_ceil(n, d) == q, n == q * d + m, m == 0;
    } else {
        assert(n + d - 1 == (q + 1) * d + (m - 1)) by (nonlinear_arith)
            requires n == q * d + m;
        lemma_fundamental_div_mod_converse(n + d - 1, d, q + 1, m - 1);
        assert(div_ceil(n, d) * d >= n) by (nonlinear_arith)
            requires div_ceil(n, d) == q + 1, n == q * d + m, m < d;
    }
}

/// `n / d` rounded up, without the overflow of `n + d - 1`.
pub fn div_ceil_u128(n: u128, d: u128) -> (r: u128)
    requires
        d > 0,
    ensures
        r == div_ceil(n as int, d as int),
{
    proof {
        lemma_div_ceil(n as int, d as int);
    }
    let q = n / d;
    if n % d == 0 {
        q
    } else {
        proof {
            vstd::arithmetic::div_mod::lemma_fundamental_div_mod(n as int, d as int);
            assert(q < n) by (nonlinear_arith)
                requires n == d * q + n % d, 0 < n % d < d, q >= 0;
        }
        q + 1
    }
}

/// Amount of token B held by `liquidity` between two sqrt prices:
/// `liquidity * (upper - lower) / 2^64`.
pub open spec fn amount_b_delta(lower: int, upper: int, liquidity: int, round_up: bool) -> int {
    div_round(liquidity * (upper - lower), Q64 as int, round_up)
}

/// Amount of token A held by `liquidity` between two sqrt prices, taken as the
/// difference of the virtual reserves `liquidity * 2^64 / sqrt_price` at each end.
/// Rounding up takes the outer roundings, rounding down the inner ones.
pub open spec fn amount_a_delta(lower: int, upper: int, liquidity: int, round_up: bool) -> int {
    let k = liquidity * Q64;
    if round_up {
        div_ceil(k, lower) - k / upper
    } else if k / lower >= div_ceil(k, upper) {
        k / lower - div_ceil(k, upper)
    } else {
        0
    }
}

/// Whether `liquidity * 2^64` fits the 128-bit word that the price math uses.
pub open spec fn scaled_liquidity_fits(liquidity: int) -> bool {
    liquidity * Q64 <= u128::MAX
}

proof fn lemma_div_bounds(x: int, d: int)
    requires
        x >= 0,
        d >= 1,
    ensures
        0 <= x / d <= x,
        0 <= div_ceil(x, d) <= x + 1,
        x / d <= div_ceil(x, d),
{
    lemma_div_pos_is_pos(x, d);
    lemma_div_is_ordered_by_denominator(x, 1, d);
    lemma_div_ceil(x, d);
}

/// What `get_amount_delta_b` returns.
pub open spec fn amount_b_delta_result(lower: int, upper: int, liquidity: int, round_up: bool) -> Result<u64, ErrorCode> {
    if liquidity * (upper - lower) > u128::MAX {
        Err(ErrorCode::MathOverflow)
    } else if amount_b_delta(lower, upper, liquidity, round_up) > u64::MAX {
        Err(ErrorCode::TokenMaxExceeded)
    } else {
        Ok(amount_b_delta(lower, upper, liquidity, round_up) as u64)
    }
}

/// What `get_amount_delta_a` returns.
pub open spec fn amount_a_delta_result(lower: int, upper: int, liquidity: int, round_up: bool) -> Result<u64, ErrorCode> {
    if !scaled_liquidity_fits(liquidity) {
        Err(ErrorCode::MathOverflow)
    } else if amount_a_delta(lower, upper, liquidity, round_up) > u64::MAX {
        Err(ErrorCode::TokenMaxExceeded)
    } else {
        Ok(amount_a_delta(lower, upper, liquidity, round_up) as u64)
    }
}

/// Token B between `lower` and `upper` (`liquidity * (upper - lower) / 2^64`).
/// Fails with `MathOverflow` when the product leaves 128 bits and with
/// `TokenMaxExceeded` when the amount leaves 64 bits.
pub fn get_amount_delta_b(lower: u128, upper: u128, liquidity: u128, round_up: bool) -> (r: Result<u64, ErrorCode>)
    requires
        lower <= upper,
    ensures
        r == amount_b_delta_result(lower as int, upper as int, liquidity as int, round_up),
        match r {
            Ok(v) => liquidity * (upper - lower) <= u128::MAX
                && v == amount_b_delta(lower as int, upper as int, liquidity as int, round_up),
            Err(e) => (e == ErrorCode::MathOverflow && liquidity * (upper - lower) > u128::MAX)
                || (e == ErrorCode::TokenMaxExceeded && liquidity * (upper - lower) <= u128::MAX
                    && amount_b_delta(lower as int, upper as int, liquidity as int, round_up) > u64::MAX),
        },
{
    let product = match liquidity.checked_mul(upper - lower) {
        Some(v) => v,
        None => return Err(ErrorCode::MathOverflow),
    };
    let v = if round_up { div_ceil_u128(product, Q64) } else { product / Q64 };
    if v > u64::MAX as u128 {
        Err(ErrorCode::TokenMaxExceeded)
    } else {
        Ok(v as u64)
    }
}

/// Token A between `lower` and `upper` (see `amount_a_delta`).
/// Fails with `MathOverflow` when `liquidity * 2^64` leaves 128 bits and with
/// `TokenMaxExceeded` when the amount leaves 64 bits.
pub fn get_amount_delta_a(lower: u128, upper: u128, liquidity: u128, round_up: bool) -> (r: Result<u64, ErrorCode>)
    requires
        0 < lower <= upper,
    ensures
        r == amount_a_delta_result(lower as int, upper as int, liquidity as int, round_up),
        match r {
            Ok(v) => scaled_liquidity_fits(liquidity as int)
                && v == amount_a_delta(lower as int, upper as int, liquidity as int, round_up),
            Err(e) => (e == ErrorCode::MathOverflow && !scaled_liquidity_fits(liquidity as int))
                || (e == ErrorCode::TokenMaxExceeded && scaled_liquidity_fits(liquidity as int)
                    && amount_a_delta(lower as int, upper as int, liquidity as int, round_up) > u64::MAX),
        },
        amount_a_delta(lower as int, upper as int, liquidity as int, round_up) >= 0,
{
    let ghost k = liquidity * Q64;
    proof {
        assert(k >= 0) by (nonlinear_arith) requires k == liquidity * Q64;
        lemma_div_bounds(k, lower as int);
        lemma_div_bounds(k, upper as int);
        lemma_div_is_ordered_by_denominator(k, lower as int, upper as int);
    }
    let k = match liquidity.checked_mul(Q64) {
        Some(v) => v,
        None => return Err(ErrorCode::MathOverflow),
    };
    let v: u128 = if round_up {
        div_ceil_u128(k, lower) - k / upper
    } else {
        let outer = k / lower;
        let inner = div_ceil_u128(k, upper);
        if outer >= inner { outer - inner } else { 0 }
    };
    if v > u64::MAX as u128 {
        Err(ErrorCode::TokenMaxExceeded)
    } else {
        Ok(v as u64)
    }
}

/// Clamps `x` into `[lo, hi]`.
pub open spec fn clamp(x: int, lo: int, hi: int) -> int {
    if x < lo {
        lo
    } else if x > hi {
        hi
    } else {
        x
    }
}

/// The sqrt price after `amount` of the specified token moves through a range
/// of constant `liquidity` starting at `price`, never past `target`.
/// Every rounding lets the price move at least as far as the exact curve
/// would: the trader pays at least, and receives at most, the exact amount.
pub open spec fn next_sqrt_price(
    price: int,
    target: int,
    liquidity: int,
    amount: int,
    is_input: bool,
    a_to_b: bool,
) -> int {
    let k = liquidity * Q64;
    if a_to_b {
        let raw = if is_input {
            let d = k / price + amount;
            if d == 0 { price } else { div_ceil(k, d) }
        } else {
            price - div_ceil(amount * Q64, liquidity)
        };
        clamp(raw, target, price)
    } else {
        let raw = if is_input {
            price + amount * Q64 / liquidity
        } else {
            let r = k / price;
            if r > amount { div_ceil(k, r - amount) } else { target }
        };
        clamp(raw, price, target)
    }
}

/// Whether `next_sqrt_price` leaves the 128-bit words of its computation: only
/// the two cases that move along token A need `liquidity * 2^64`.
pub open spec fn next_sqrt_price_overflows(
    price: int,
    liquidity: int,
    amount: int,
    is_input: bool,
    a_to_b: bool,
) -> bool {
    (a_to_b == is_input) && (!scaled_liquidity_fits(liquidity) || (a_to_b
        && liquidity * Q64 / price + amount > u128::MAX))
}

/// What `get_next_sqrt_price` returns.
pub open spec fn next_sqrt_price_result(
    price: int,
    target: int,
    liquidity: int,
    amount: int,
    is_input: bool,
    a_to_b: bool,
) -> Result<u128, ErrorCode> {
    if next_sqrt_price_overflows(price, liquidity, amount, is_input, a_to_b) {
        Err(ErrorCode::MathOverflow)
    } else {
        Ok(next_sqrt_price(price, target, liquidity, amount, is_input, a_to_b) as u128)
    }
}

/// Moves the sqrt price by `amount` of the specified token (see
/// `next_sqrt_price`); fails with `MathOverflow` exactly where
/// `next_sqrt_price_overflows` says.
pub fn get_next_sqrt_price(
    price: u128,
    target: u128,
    liquidity: u128,
    amount: u64,
    is_input: bool,
    a_to_b: bool,
) -> (r: Result<u128, ErrorCode>)
    requires
        price > 0,
        liquidity > 0,
        a_to_b ==> target <= price,
        !a_to_b ==> price <= target,
    ensures
        r == next_sqrt_price_result(price as int, target as int, liquidity as int, amount as int, is_input, a_to_b),
        match r {
            Ok(v) => !next_sqrt_price_overflows(price as int, liquidity as int, amount as int, is_input, a_to_b)
                && v == next_sqrt_price(price as int, target as int, liquidity as int, amount as int, is_input, a_to_b),
            Err(e) => e == ErrorCode::MathOverflow
                && next_sqrt_price_overflows(price as int, liquidity as int, amount as int, is_input, a_to_b),
        },
{
    proof {
        assert(amount * Q64 <= u128::MAX) by (nonlinear_arith) requires amount <= u64::MAX;
        lemma_div_bounds(amount * Q64, liquidity as int);
    }
    let scaled_amount: u128 = (amount as u128) * Q64;
    if a_to_b {
        let raw: u128 = if is_input {
            let k = match liquidity.checked_mul(Q64) {
                Some(v) => v,
                None => return Err(ErrorCode::MathOverflow),
            };
            proof { lemma_div_bounds(k as int, price as int); }
            let d = match (k / price).checked_add(amount as u128) {
                Some(v) => v,
                None => return Err(ErrorCode::MathOverflow),
            };
            if d == 0 { price } else {
                proof { lemma_div_bounds(k as int, d as int); }
                let c = div_ceil_u128(k, d);
                if c > price { price } else { c }
            }
        } else {
            let step = div_ceil_u128(scaled_amount, liquidity);
            if step > price - target { target } else { price - step }
        };
        if raw < target { Ok(target) } else if raw > price { Ok(price) } else { Ok(raw) }
    } else {
        if is_input {
            let step = scaled_amount / liquidity;
            if step > target - price { Ok(target) } else { Ok(price + step) }
        } else {
            let k = match liquidity.checked_mul(Q64) {
                Some(v) => v,
                None => return Err(ErrorCode::MathOverflow),
            };
            proof { lemma_div_bounds(k as int, price as int); }
            let reserve = k / price;
            let raw = if reserve > amount as u128 {
                proof { lemma_div_bounds(k as int, (reserve - amount) as int); }
                let c = div_ceil_u128(k, reserve - amount as u128);
                if c > target { target } else { c }
            } else {
                target
            };
            if raw < price { Ok(price) } else { Ok(raw) }
        }
    }
}

/// Lowest and highest tick index that a pool can reach.
pub const MIN_TICK_INDEX: i32 = -443636;
pub const MAX_TICK_INDEX: i32 = 443636;

/// `sqrt_price_at(MIN_TICK_INDEX)` and `sqrt_price_at(MAX_TICK_INDEX)`.
pub const MIN_SQRT_PRICE: u128 = 4295048016;
pub const MAX_SQRT_PRICE: u128 = 79226673521066979257578248091;

/// `2^64 / sqrt(1.0001)^(2^i)`, for the bits `i` of an absolute tick index.
pub open spec fn tick_factor(i: int) -> int {
    if i == 0 {
        18445821805675392311
    } else 
    if i == 1 {
        18444899583751176498
    } else 
    if i == 2 {
        18443055278223354162
    } else 
    if i == 3 {
        18439367220385604838
    } else 
    if i == 4 {
        18431993317065449817
    } else 
    if i == 5 {
        18417254355718160513
    } else 
    if i == 6 {
        18387811781193591352
    } else 
    if i == 7 {
        18329067761203520168
    } else 
    if i == 8 {
        18212142134806087854
    } else 
    if i == 9 {
        17980523815641551639
    } else 
    if i == 10 {
        17526086738831147013
    } else 
    if i == 11 {
        16651378430235024244
    } else 
    if i == 12 {
        15030750278693429944
    } else 
    if i == 13 {
        12247334978882834399
    } else 
    if i == 14 {
        8131365268884726200
    } else 
    if i == 15 {
        3584323654723342297
    } else 
    if i == 16 {
        696457651847595233
    } else 
    if i == 17 {
        26294789957452057
    } else {
        37481735321082
    }
}

fn tick_factor_exec(i: u32) -> (r: u128)
    requires
        i < 19,
    ensures
        r == tick_factor(i as int),
        r < Q64,
{
    if i == 0 {
        18445821805675392311
    } else 
    if i == 1 {
        18444899583751176498
    } else 
    if i == 2 {
        18443055278223354162
    } else 
    if i == 3 {
        18439367220385604838
    } else 
    if i == 4 {
        18431993317065449817
    } else 
    if i == 5 {
        18417254355718160513
    } else 
    if i == 6 {
        18387811781193591352
    } else 
    if i == 7 {
        18329067761203520168
    } else 
    if i == 8 {
        18212142134806087854
    } else 
    if i == 9 {
        17980523815641551639
    } else 
    if i == 10 {
        17526086738831147013
    } else 
    if i == 11 {
        16651378430235024244
    } else 
    if i == 12 {
        15030750278693429944
    } else 
    if i == 13 {
        12247334978882834399
    } else 
    if i == 14 {
        8131365268884726200
    } else 
    if i == 15 {
        3584323654723342297
    } else 
    if i == 16 {
        696457651847595233
    } else 
    if i == 17 {
        26294789957452057
    } else {
        37481735321082
    }
}

/// Multiplies `ratio` by the factor of each set bit of `rem`, from bit `i` on.
pub open spec fn tick_ratio(rem: int, i: int, ratio: int) -> int
    decreases 19 - i,
{
    if i >= 19 {
        ratio
    } else {
        tick_ratio(
            rem / 2,
            i + 1,
            if rem % 2 == 1 { ratio * tick_factor(i) / Q64 as int } else { ratio },
        )
    }
}

/// The sqrt price (Q64.64) at a tick: `sqrt(1.0001)^tick`, computed from the
/// binary digits of `|tick|`; a positive tick takes the reciprocal of its
/// negative.
pub open spec fn sqrt_price_at(tick: int) -> int {
    if tick == 0 {
        Q64 as int
    } else {
        let r = tick_ratio(if tick < 0 { -tick } else { tick }, 0, Q64 as int);
        if tick < 0 {
            r
        } else if r == 0 {
            u128::MAX as int
        } else {
            u128::MAX as int / r
        }
    }
}

/// The sqrt price at `tick` (see `sqrt_price_at`).
pub fn sqrt_price_from_tick_index(tick: i32) -> (r: u128)
    requires
        MIN_TICK_INDEX <= tick <= MAX_TICK_INDEX,
    ensures
        r == sqrt_price_at(tick as int),
{
    if tick == 0 {
        return Q64;
    }
    let abs: u32 = if tick < 0 { (-tick) as u32 } else { tick as u32 };
    let mut rem: u32 = abs;
    let mut ratio: u128 = Q64;
    let mut i: u32 = 0;
    while i < 19
        invariant
            i <= 19,
            ratio <= Q64,
            tick_ratio(rem as int, i as int, ratio as int) == tick_ratio(abs as int, 0, Q64 as int),
        decreases 19 - i,
    {
        let f = tick_factor_exec(i);
        if rem % 2 == 1 {
            proof {
                assert(ratio * f <= Q64 * Q64 - Q64) by (nonlinear_arith)
                    requires ratio <= Q64, f < Q64;
                assert(ratio * f / (Q64 as int) <= ratio) by (nonlinear_arith)
                    requires f < Q64, ratio >= 0, f >= 0;
            }
            ratio = ratio * f / Q64;
        }
        rem = rem / 2;
        i = i + 1;
    }
    if tick < 0 {
        ratio
    } else if ratio == 0 {
        u128::MAX
    } else {
        u128::MAX / ratio
    }
}

/// Binary search for the tick of `price` between `lo` and `hi` (exclusive).
pub open spec fn tick_search(price: int, lo: int, hi: int) -> int
    decreases hi - lo,
{
    if hi - lo <= 1 {
        lo
    } else {
        let mid = lo + (hi - lo) / 2;
        if sqrt_price_at(mid) <= price {
            tick_search(price, mid, hi)
        } else {
            tick_search(price, lo, mid)
        }
    }
}

/// What `tick_index_from_sqrt_price` returns.
pub open spec fn tick_at_price(price: int) -> int {
    if sqrt_price_at(MIN_TICK_INDEX as int) > price {
        MIN_TICK_INDEX as int
    } else {
        tick_search(price, MIN_TICK_INDEX as int, MAX_TICK_INDEX + 1)
    }
}

/// The tick whose range holds `price`: a tick whose sqrt price does not
/// exceed `price` while that of the next tick does (the lowest tick for a
/// price below it).
pub fn tick_index_from_sqrt_price(price: u128) -> (r: i32)
    ensures
        r == tick_at_price(price as int),
        MIN_TICK_INDEX <= r <= MAX_TICK_INDEX,
        (sqrt_price_at(r as int) <= price && (r == MAX_TICK_INDEX || price < sqrt_price_at(r + 1)))
            || (r == MIN_TICK_INDEX && price < sqrt_price_at(r as int)),
{
    let mut lo: i32 = MIN_TICK_INDEX;
    let mut hi: i32 = MAX_TICK_INDEX + 1;
    if sqrt_price_from_tick_index(lo) > price {
        return lo;
    }
    while hi - lo > 1
        invariant
            MIN_TICK_INDEX <= lo < hi <= MAX_TICK_INDEX + 1,
            sqrt_price_at(lo as int) <= price,
            hi == MAX_TICK_INDEX + 1 || price < sqrt_price_at(hi as int),
            tick_search(price as int, lo as int, hi as int) == tick_at_price(price as int),
        decreases hi - lo,
    {
        let mid = lo + (hi - lo) / 2;
        if sqrt_price_from_tick_index(mid) <= price {
            lo = mid;
        } else {
            hi = mid;
        }
    }
    lo
}

} // verus!
