//! A toy payment engine: deposits, withdrawals, disputes, resolutions and
//! chargebacks applied to per-client balances, with every balance rule
//! stated as a contract and proved.
//!
//! Amounts are integers counted in ten-thousandths of a currency unit
//! (`12.3456` is stored as `123456`).

pub mod types;
pub mod model;
pub mod engine;
pub mod routing;
pub mod laws;
