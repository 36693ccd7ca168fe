use vstd::prelude::*;
use crate::errors::ErrorCode;
use crate::math::{MAX_SQRT_PRICE, MIN_SQRT_PRICE};
use crate::step::MAX_FEE_RATE;

verus! {

/// Protocol fee rates are basis points of the trading fee.
pub const PROTOCOL_FEE_RATE_DENOMINATOR: u64 = 10000;

/// Highest share of the trading fee that the protocol may keep (25%).
pub const MAX_PROTOCOL_FEE_RATE: u16 = 2500;

/// A 32-byte account address, as two big-endian halves.
#[derive(Clone, Copy, Debug, PartialEq, Eq, Structural)]
pub struct Address {
    pub high: u128,
    pub low: u128,
}

/// The state of one market: a pair of tokens at one fee tier.
#[derive(Clone, Copy, Debug, PartialEq, Eq, Structural)]
pub struct Pool {
    pub address: Address,
    pub pools_config: Address,
    pub token_mint_a: Address,
    pub token_vault_a: Address,
    pub token_mint_b: Address,
    pub token_vault_b: Address,
    pub tick_spacing: u16,
    /// Parts per million of each input.
    pub fee_rate: u16,
    /// Basis points of each fee.
    pub protocol_fee_rate: u16,
    pub liquidity: u128,
    /// Q64.64 square root of the price of A in B.
    pub sqrt_price: u128,
    pub tick_current_index: i32,
    pub protocol_fee_owed_a: u64,
    pub protocol_fee_owed_b: u64,
    /// Q64.64 fee earned per unit of liquidity over the pool's life.
    pub fee_growth_global_a: u128,
    pub fee_growth_global_b: u128,
    pub reward_last_updated_timestamp: u64,
}

/// What a swap computed, to be applied to its pool.
#[derive(Clone, Copy, Debug, PartialEq, Eq, Structural)]
pub struct SwapResult {
    /// Gross amount of token A that moves (in or out).
    pub amount_a: u64,
    /// Gross amount of token B that moves (in or out).
    pub amount_b: u64,
    pub next_liquidity: u128,
    pub next_tick_index: i32,
    pub next_sqrt_price: u128,
    pub next_fee_growth_global_a: u128,
    pub next_fee_growth_global_b: u128,
    /// Protocol fee taken from the input token.
    pub protocol_fee: u64,
    /// Total fee taken from the input token.
    pub fee_amount: u64,
}

impl Pool {
    pub open spec fn wf(&self) -> bool {
        &&& self.tick_spacing >= 1
        &&& self.fee_rate <= MAX_FEE_RATE
        &&& self.protocol_fee_rate <= MAX_PROTOCOL_FEE_RATE
        &&& MIN_SQRT_PRICE <= self.sqrt_price <= MAX_SQRT_PRICE
    }

    /// Whether the pool is well formed (see `wf`).
    pub fn is_valid(&self) -> (r: bool)
        ensures
            r == self.wf(),
    {
        self.tick_spacing >= 1 && self.fee_rate <= MAX_FEE_RATE && self.protocol_fee_rate
            <= MAX_PROTOCOL_FEE_RATE && MIN_SQRT_PRICE <= self.sqrt_price && self.sqrt_price
            <= MAX_SQRT_PRICE
    }

    pub open spec fn input_token_mint_spec(&self, a_to_b: bool) -> Address {
        if a_to_b { self.token_mint_a } else { self.token_mint_b }
    }

    pub open spec fn output_token_mint_spec(&self, a_to_b: bool) -> Address {
        if a_to_b { self.token_mint_b } else { self.token_mint_a }
    }

    /// Mint of the token that a swap in direction `a_to_b` takes in.
    pub fn input_token_mint(&self, a_to_b: bool) -> (r: Address)
        ensures
            r == self.input_token_mint_spec(a_to_b),
    {
        if a_to_b { self.token_mint_a } else { self.token_mint_b }
    }

    /// Mint of the token that a swap in direction `a_to_b` pays out.
    pub fn output_token_mint(&self, a_to_b: bool) -> (r: Address)
        ensures
            r == self.output_token_mint_spec(a_to_b),
    {
        if a_to_b { self.token_mint_b } else { self.token_mint_a }
    }

    /// The pool once `update` from a swap in direction `a_to_b` is applied:
    /// price, tick, liquidity and fee growth are taken from the update, and
    /// the protocol fee is added to what is owed on the input token.
    pub open spec fn after_swap(self, update: SwapResult, a_to_b: bool, timestamp: u64) -> Pool {
        Pool {
            liquidity: update.next_liquidity,
            tick_current_index: update.next_tick_index,
            sqrt_price: update.next_sqrt_price,
            fee_growth_global_a: update.next_fee_growth_global_a,
            fee_growth_global_b: update.next_fee_growth_global_b,
            protocol_fee_owed_a: if a_to_b {
                (self.protocol_fee_owed_a + update.protocol_fee) as u64
            } else {
                self.protocol_fee_owed_a
            },
            protocol_fee_owed_b: if a_to_b {
                self.protocol_fee_owed_b
            } else {
                (self.protocol_fee_owed_b + update.protocol_fee) as u64
            },
            reward_last_updated_timestamp: timestamp,
            ..self
        }
    }

    /// Whether the owed protocol fee of the input token would leave 64 bits.
    pub open spec fn protocol_fee_overflows(self, update: SwapResult, a_to_b: bool) -> bool {
        if a_to_b {
            self.protocol_fee_owed_a + update.protocol_fee > u64::MAX
        } else {
            self.protocol_fee_owed_b + update.protocol_fee > u64::MAX
        }
    }

    /// Applies a swap's update (see `after_swap`). Fails with `MathOverflow`,
    /// and changes nothing, where the owed protocol fee would overflow.
    pub fn apply_swap(&mut self, update: &SwapResult, a_to_b: bool, timestamp: u64) -> (r: Result<(), ErrorCode>)
        ensures
            r.is_ok() == !old(self).protocol_fee_overflows(*update, a_to_b),
            r.is_ok() ==> *final(self) == old(self).after_swap(*update, a_to_b, timestamp),
            r.is_err() ==> *final(self) == *old(self) && r == Err::<(), ErrorCode>(ErrorCode::MathOverflow),
    {
        let (owed_a, owed_b) = if a_to_b {
            match self.protocol_fee_owed_a.checked_add(update.protocol_fee) {
                Some(v) => (v, self.protocol_fee_owed_b),
                None => return Err(ErrorCode::MathOverflow),
            }
        } else {
            match self.protocol_fee_owed_b.checked_add(update.protocol_fee) {
                Some(v) => (self.protocol_fee_owed_a, v),
                None => return Err(ErrorCode::MathOverflow),
            }
        };
        self.liquidity = update.next_liquidity;
        self.tick_current_index = update.next_tick_index;
        self.sqrt_price = update.next_sqrt_price;
        self.fee_growth_global_a = update.next_fee_growth_global_a;
        self.fee_growth_global_b = update.next_fee_growth_global_b;
        self.protocol_fee_owed_a = owed_a;
        self.protocol_fee_owed_b = owed_b;
        self.reward_last_updated_timestamp = timestamp;
        Ok(())
    }

    /// The pool right after a protocol-fee collection: nothing is owed.
    pub open spec fn after_collection(self) -> Pool {
        Pool { protocol_fee_owed_a: 0, protocol_fee_owed_b: 0, ..self }
    }

    /// Sets both owed protocol fees to zero; the rest of the pool is kept.
    pub fn reset_protocol_fees_owed(&mut self)
        ensures
            *final(self) == old(self).after_collection(),
    {
        self.protocol_fee_owed_a = 0;
        self.protocol_fee_owed_b = 0;
    }
}

} // verus!
