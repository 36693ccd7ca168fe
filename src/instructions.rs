//! The operations that callers invoke, each on the state it loads.

pub mod collect_protocol_fees;
pub mod delete_token_badge;
pub mod initialize_config_extension;
pub mod swap;
pub mod two_hop_swap;
