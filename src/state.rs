//! Configuration records kept beside the pools.

pub mod config_extension;
pub mod fee_tier;
