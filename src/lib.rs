//! Swap engine of a concentrated-liquidity market maker: fixed-point price
//! math, tick sequences, single-pool and two-hop swaps, and the protocol-fee
//! ledger.

pub mod errors;
pub mod instructions;
pub mod math;
pub mod pool;
pub mod state;
pub mod step;
pub mod swap;
pub mod tick;
pub mod transfer_fee;
