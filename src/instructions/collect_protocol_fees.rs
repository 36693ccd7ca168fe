use vstd::prelude::*;
use crate::pool::Pool;
use crate::transfer_fee::TransferFeeConfig;

verus! {

/// What a protocol-fee collection works on: the pool and the transfer fee of
/// each of its tokens.
#[derive(Clone, Copy, Debug, PartialEq, Eq, Structural)]
pub struct CollectProtocolFeesV2 {
    pub pool: Pool,
    pub transfer_fee_a: Option<TransferFeeConfig>,
    pub transfer_fee_b: Option<TransferFeeConfig>,
}

/// The amounts that a collection moves from the pool's vaults to the
/// protocol's destination accounts.
#[derive(Clone, Copy, Debug, PartialEq, Eq, Structural)]
pub struct ProtocolFeeTransfers {
    pub amount_a: u64,
    pub amount_b: u64,
}

/// What a collection of `pool`'s protocol fees moves: all that is owed.
pub open spec fn collected(pool: Pool) -> ProtocolFeeTransfers {
    ProtocolFeeTransfers { amount_a: pool.protocol_fee_owed_a, amount_b: pool.protocol_fee_owed_b }
}

/// Collects the protocol fees: returns the amounts owed, for the caller to
/// transfer, and sets what is owed to zero. The caller commits the pool
/// only once both transfers have succeeded.
pub fn handler(ctx: &mut CollectProtocolFeesV2) -> (r: ProtocolFeeTransfers)
    ensures
        r == collected(old(ctx).pool),
        final(ctx).pool == old(ctx).pool.after_collection(),
        final(ctx).transfer_fee_a == old(ctx).transfer_fee_a,
        final(ctx).transfer_fee_b == old(ctx).transfer_fee_b,
{
    let transfers = ProtocolFeeTransfers {
        amount_a: ctx.pool.protocol_fee_owed_a,
        amount_b: ctx.pool.protocol_fee_owed_b,
    };
    ctx.pool.reset_protocol_fees_owed();
    transfers
}

/// A second collection with no swap in between moves nothing, and nothing
/// is owed right after any collection.
pub proof fn lemma_collect_twice_moves_nothing(pool: Pool)
    ensures
        pool.after_collection().protocol_fee_owed_a == 0,
        pool.after_collection().protocol_fee_owed_b == 0,
        collected(pool.after_collection()) == (ProtocolFeeTransfers { amount_a: 0, amount_b: 0 }),
        pool.after_collection().after_collection() == pool.after_collection(),
{
}

} // verus!
