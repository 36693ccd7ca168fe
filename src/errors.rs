use vstd::prelude::*;

verus! {

/// Every way an operation of this library can fail. All of them are fatal to
/// the current invocation; none leaves a partial update behind.
#[derive(Clone, Copy, Debug, PartialEq, Eq, Structural)]
pub enum ErrorCode {
    AmountOutBelowMinimum,
    AmountInAboveMaximum,
    DuplicateTwoHopPool,
    InvalidIntermediaryMint,
    IntermediateTokenAmountMismatch,
    FeeRateMaxExceeded,
    MathOverflow,
    TokenMaxExceeded,
    TickSequenceExhausted,
    InvalidTickArraySequence,
    ZeroLiquidity,
    ZeroTradableAmount,
    InvalidSqrtPriceLimit,
    TransferFeeCalculationError,
}

} // verus!
