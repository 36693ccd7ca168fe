use vstd::prelude::*;
use crate::errors::ErrorCode;
use crate::pool::Address;

verus! {

/// The authorities that a pools config hands out beyond its own.
#[derive(Clone, Copy, Debug, PartialEq, Eq, Structural)]
pub struct PoolsConfigExtension {
    pub pools_config: Address,
    pub config_extension_authority: Address,
    pub token_badge_authority: Address,
}

impl PoolsConfigExtension {
    /// Ties the extension to its config; both authorities start as
    /// `default_authority`.
    pub fn initialize(&mut self, pools_config: Address, default_authority: Address) -> (r: Result<(), ErrorCode>)
        ensures
            r.is_ok(),
            *final(self) == (PoolsConfigExtension {
                pools_config,
                config_extension_authority: default_authority,
                token_badge_authority: default_authority,
            }),
    {
        self.pools_config = pools_config;
        self.config_extension_authority = default_authority;
        self.token_badge_authority = default_authority;
        Ok(())
    }

    pub fn update_config_extension_authority(&mut self, config_extension_authority: Address)
        ensures
            *final(self) == (PoolsConfigExtension { config_extension_authority, ..*old(self) }),
    {
        self.config_extension_authority = config_extension_authority;
    }

    pub fn update_token_badge_authority(&mut self, token_badge_authority: Address)
        ensures
            *final(self) == (PoolsConfigExtension { token_badge_authority, ..*old(self) }),
    {
        self.token_badge_authority = token_badge_authority;
    }
}

} // verus!
