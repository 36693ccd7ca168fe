use vstd::prelude::*;
use crate::errors::ErrorCode;
use crate::pool::Address;
use crate::state::config_extension::PoolsConfigExtension;

verus! {

/// What creating a config extension works on: the config, whose fee
/// authority becomes both authorities of the new extension.
#[derive(Clone, Copy, Debug, PartialEq, Eq, Structural)]
pub struct InitializeConfigExtension {
    pub config: Address,
    pub fee_authority: Address,
    pub config_extension: PoolsConfigExtension,
}

pub fn handler(ctx: &mut InitializeConfigExtension) -> (r: Result<(), ErrorCode>)
    ensures
        r.is_ok(),
        final(ctx).config == old(ctx).config,
        final(ctx).fee_authority == old(ctx).fee_authority,
        final(ctx).config_extension == (PoolsConfigExtension {
            pools_config: old(ctx).config,
            config_extension_authority: old(ctx).fee_authority,
            token_badge_authority: old(ctx).fee_authority,
        }),
{
    let config = ctx.config;
    let fee_authority = ctx.fee_authority;
    ctx.config_extension.initialize(config, fee_authority)
}

} // verus!
