use vstd::prelude::*;
use crate::errors::ErrorCode;
use crate::pool::Address;
use crate::step::MAX_FEE_RATE;

verus! {

/// The default fee rate for pools of one tick spacing under a config.
#[derive(Clone, Copy, Debug, PartialEq, Eq, Structural)]
pub struct FeeTier {
    pub pools_config: Address,
    pub tick_spacing: u16,
    pub default_fee_rate: u16,
}

impl FeeTier {
    /// Sets up the tier. Fails with `FeeRateMaxExceeded`, and changes
    /// nothing, where the rate exceeds `MAX_FEE_RATE`.
    pub fn initialize(&mut self, pools_config: Address, tick_spacing: u16, default_fee_rate: u16) -> (r: Result<(), ErrorCode>)
        ensures
            default_fee_rate > MAX_FEE_RATE ==> r == Err::<(), ErrorCode>(ErrorCode::FeeRateMaxExceeded)
                && *final(self) == *old(self),
            default_fee_rate <= MAX_FEE_RATE ==> r.is_ok() && *final(self) == (FeeTier {
                pools_config,
                tick_spacing,
                default_fee_rate,
            }),
    {
        if default_fee_rate > MAX_FEE_RATE {
            return Err(ErrorCode::FeeRateMaxExceeded);
        }
        self.pools_config = pools_config;
        self.tick_spacing = tick_spacing;
        self.update_default_fee_rate(default_fee_rate)
    }

    /// Changes the default fee rate. Fails with `FeeRateMaxExceeded`, and
    /// changes nothing, where the rate exceeds `MAX_FEE_RATE`.
    pub fn update_default_fee_rate(&mut self, default_fee_rate: u16) -> (r: Result<(), ErrorCode>)
        ensures
            default_fee_rate > MAX_FEE_RATE ==> r == Err::<(), ErrorCode>(ErrorCode::FeeRateMaxExceeded)
                && *final(self) == *old(self),
            default_fee_rate <= MAX_FEE_RATE ==> r.is_ok()
                && *final(self) == (FeeTier { default_fee_rate, ..*old(self) }),
    {
        if default_fee_rate > MAX_FEE_RATE {
            return Err(ErrorCode::FeeRateMaxExceeded);
        }
        self.default_fee_rate = default_fee_rate;
        Ok(())
    }
}

} // verus!
