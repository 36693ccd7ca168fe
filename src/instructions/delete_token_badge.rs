use vstd::prelude::*;
use crate::errors::ErrorCode;
use crate::pool::Address;

verus! {

/// A token badge to delete: the account is closed, and its rent returned
/// to `receiver`, once the handler has accepted.
#[derive(Clone, Copy, Debug, PartialEq, Eq, Structural)]
pub struct DeleteTokenBadge {
    pub pools_config: Address,
    pub token_mint: Address,
    pub token_badge: Address,
    pub receiver: Address,
}

/// Accepts the deletion; the badge carries no state to settle first.
pub fn handler(ctx: &DeleteTokenBadge) -> (r: Result<(), ErrorCode>)
    ensures
        r.is_ok(),
{
    Ok(())
}

} // verus!
