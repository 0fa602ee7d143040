//! Liquidation queue: how much of each collateral of an under-collateralized
//! loan is sold to the standing bids, and read access to those bids.

pub mod error;
pub mod liquidation;
pub mod liquidation_laws;
pub mod math;
pub mod msg;
pub mod paging;
pub mod query;
pub mod response;
pub mod state;
