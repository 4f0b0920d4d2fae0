//! Two ledgers of a deterministic state machine: a registry of uniquely owned
//! hash-power contracts and a fungible payment token with free and reserved
//! balances.

pub mod hash;
pub mod hashpower_contract;
pub mod payment_token;
pub mod totals;
