//! A replay engine for client payment events: deposits, withdrawals,
//! disputes, resolutions and chargebacks, folded into per-client balances.

pub mod account;
pub mod amount;
pub mod laws;
pub mod transactions;
