use vstd::prelude::*;
use anchor_spl::token_2022::spl_token_2022::extension::transfer_fee::TransferFee;
use crate::errors::ErrorCode;
use crate::math::div_ceil;

verus! {

/// Transfer fees are basis points of the gross amount moved.
pub const TRANSFER_FEE_DENOMINATOR: u16 = 10000;

/// The transfer fee in force for a mint that charges one on every transfer.
#[derive(Clone, Copy, Debug, PartialEq, Eq, Structural)]
pub struct TransferFeeConfig {
    pub basis_points: u16,
    pub maximum_fee: u64,
}

/// Fee withheld from a transfer of `amount`: nothing for a zero rate or a
/// zero amount, else `amount * basis_points / 10000` rounded up and capped at
/// `maximum_fee`; none where the uncapped fee leaves 64 bits.
pub open spec fn transfer_fee(basis_points: u16, maximum_fee: u64, amount: u64) -> Option<u64> {
    if basis_points == 0 || amount == 0 {
        Some(0)
    } else {
        let raw = div_ceil(amount * basis_points, TRANSFER_FEE_DENOMINATOR as int);
        if raw > u64::MAX {
            None
        } else if raw < maximum_fee {
            Some(raw as u64)
        } else {
            Some(maximum_fee)
        }
    }
}

/// Smallest gross amount whose transfer delivers `post_fee_amount`: itself
/// for a zero rate; zero for a full rate or a zero amount; none for a rate
/// above the full one; else `post * 10000 / (10000 - basis_points)` rounded
/// up, or `post + maximum_fee` where the fee in between reaches the cap (none
/// where either leaves 64 bits).
pub open spec fn pre_fee_amount(basis_points: u16, maximum_fee: u64, post_fee_amount: u64) -> Option<u64> {
    if basis_points == 0 {
        Some(post_fee_amount)
    } else if basis_points == TRANSFER_FEE_DENOMINATOR || post_fee_amount == 0 {
        Some(0)
    } else if basis_points > TRANSFER_FEE_DENOMINATOR {
        None
    } else {
        let raw = div_ceil(post_fee_amount * TRANSFER_FEE_DENOMINATOR, TRANSFER_FEE_DENOMINATOR - basis_points);
        if raw - post_fee_amount >= maximum_fee {
            if post_fee_amount + maximum_fee > u64::MAX {
                None
            } else {
                Some((post_fee_amount + maximum_fee) as u64)
            }
        } else if raw > u64::MAX {
            None
        } else {
            Some(raw as u64)
        }
    }
}

/// Relies on spl-token-2022's `TransferFee::calculate_fee` for the fee that
/// a transfer of `amount` pays.
#[verifier::external_body]
fn token_transfer_fee(basis_points: u16, maximum_fee: u64, amount: u64) -> (r: Option<u64>)
    ensures
        r == transfer_fee(basis_points, maximum_fee, amount),
{
    let fee = TransferFee {
        epoch: 0u64.into(),
        maximum_fee: maximum_fee.into(),
        transfer_fee_basis_points: basis_points.into(),
    };
    fee.calculate_fee(amount)
}

/// Relies on spl-token-2022's `TransferFee::calculate_pre_fee_amount` for
/// the gross amount that delivers `post_fee_amount`.
#[verifier::external_body]
fn token_pre_fee_amount(basis_points: u16, maximum_fee: u64, post_fee_amount: u64) -> (r: Option<u64>)
    ensures
        r == pre_fee_amount(basis_points, maximum_fee, post_fee_amount),
{
    let fee = TransferFee {
        epoch: 0u64.into(),
        maximum_fee: maximum_fee.into(),
        transfer_fee_basis_points: basis_points.into(),
    };
    fee.calculate_pre_fee_amount(post_fee_amount)
}

/// What arrives of a transfer of `amount` (the transfer-fee-excluded amount).
pub open spec fn fee_excluded(config: Option<TransferFeeConfig>, amount: u64) -> Option<u64> {
    match config {
        None => Some(amount),
        Some(c) => match transfer_fee(c.basis_points, c.maximum_fee, amount) {
            Some(fee) => if fee <= amount { Some((amount - fee) as u64) } else { None },
            None => None,
        },
    }
}

/// What must be sent so that `amount` arrives (the transfer-fee-included
/// amount): at a full rate, `amount` plus the cap.
pub open spec fn fee_included(config: Option<TransferFeeConfig>, amount: u64) -> Option<u64> {
    match config {
        None => Some(amount),
        Some(c) => if c.basis_points == 0 || amount == 0 {
            Some(amount)
        } else if c.basis_points == TRANSFER_FEE_DENOMINATOR {
            if amount + c.maximum_fee > u64::MAX { None } else { Some((amount + c.maximum_fee) as u64) }
        } else {
            pre_fee_amount(c.basis_points, c.maximum_fee, amount)
        },
    }
}

/// The amount that arrives when `amount` is sent under `config` (no config:
/// no fee). Fails with `TransferFeeCalculationError` where `fee_excluded`
/// has no value.
pub fn calculate_transfer_fee_excluded_amount(config: Option<TransferFeeConfig>, amount: u64) -> (r: Result<u64, ErrorCode>)
    ensures
        match fee_excluded(config, amount) {
            Some(v) => r == Ok::<u64, ErrorCode>(v),
            None => r == Err::<u64, ErrorCode>(ErrorCode::TransferFeeCalculationError),
        },
{
    match config {
        None => Ok(amount),
        Some(c) => match token_transfer_fee(c.basis_points, c.maximum_fee, amount) {
            Some(fee) => if fee <= amount {
                Ok(amount - fee)
            } else {
                Err(ErrorCode::TransferFeeCalculationError)
            },
            None => Err(ErrorCode::TransferFeeCalculationError),
        },
    }
}

/// The amount to send under `config` so that `amount` arrives. Fails with
/// `TransferFeeCalculationError` where `fee_included` has no value.
pub fn calculate_transfer_fee_included_amount(config: Option<TransferFeeConfig>, amount: u64) -> (r: Result<u64, ErrorCode>)
    ensures
        match fee_included(config, amount) {
            Some(v) => r == Ok::<u64, ErrorCode>(v),
            None => r == Err::<u64, ErrorCode>(ErrorCode::TransferFeeCalculationError),
        },
{
    match config {
        None => Ok(amount),
        Some(c) => if c.basis_points == 0 || amount == 0 {
            Ok(amount)
        } else if c.basis_points == TRANSFER_FEE_DENOMINATOR {
            match amount.checked_add(c.maximum_fee) {
                Some(v) => Ok(v),
                None => Err(ErrorCode::TransferFeeCalculationError),
            }
        } else {
            match token_pre_fee_amount(c.basis_points, c.maximum_fee, amount) {
                Some(v) => Ok(v),
                None => Err(ErrorCode::TransferFeeCalculationError),
            }
        },
    }
}

} // verus!
