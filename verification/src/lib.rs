//! Pricing and liquidity accounting for a two-asset weighted pool whose
//! weights move linearly over a time window.

pub mod asset;
pub mod decimal;
pub mod decimal256;
pub mod error;
pub mod factory;
pub mod fixed;
pub mod guard;
pub mod liquidity;
pub mod math;
pub mod msg;
pub mod pair;
pub mod router;
pub mod swap;
pub mod uint256;
pub mod weight;
