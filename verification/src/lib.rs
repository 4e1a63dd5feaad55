//! Auto-trading contract logic: risk controls, order books, routing and
//! trading strategies, over plain values.
use vstd::prelude::*;

pub mod admin;
pub mod advanced_risk;
pub mod auth;
pub mod conditional;
pub mod contract;
pub mod correlation;
pub mod emergency;
pub mod errors;
pub mod iceberg;
pub mod math;
pub mod oracle;
pub mod portfolio_insurance;
pub mod positions;
pub mod rate_limit;
pub mod risk;
pub mod risk_parity;
pub mod smart_routing;
pub mod storage;
pub mod store;
pub mod twap;
pub mod strategies;

pub use errors::AutoTradeError;

verus! {

/// Identifies an account (a trader, an admin or an oracle).
pub type AccountId = u64;

}
