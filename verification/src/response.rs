//! What queries answer with: read-only projections of the ledger's records.

use crate::liquidation::TokensHuman;
use crate::math::{Decimal256, Uint256};
use crate::state::{Bid, BidPool, Config};
use vstd::prelude::*;

verus! {

/// The configuration of the queue.
#[derive(Debug, PartialEq, Eq)]
pub struct ConfigResponse {
    pub owner: String,
    pub oracle_contract: String,
    pub stable_denom: String,
    pub safe_ratio: Decimal256,
    pub bid_fee: Decimal256,
    pub liquidation_threshold: Uint256,
    pub price_timeframe: u64,
    pub waiting_period: u64,
}

/// The collateral to sell, asset by asset.
#[derive(Debug, PartialEq, Eq)]
pub struct LiquidationAmountResponse {
    pub collaterals: TokensHuman,
}

/// One bid.
#[derive(Debug, PartialEq, Eq)]
pub struct BidResponse {
    pub idx: u128,
    pub collateral_token: String,
    pub bidder: String,
    pub amount: Uint256,
    pub premium_slot: u8,
    pub pending_liquidated_collateral: Uint256,
    pub product_snapshot: Decimal256,
    pub sum_snapshot: Decimal256,
    pub wait_end: Option<u64>,
    pub epoch_snapshot: u128,
    pub scale_snapshot: u128,
}

/// A page of bids.
#[derive(Debug, PartialEq, Eq)]
pub struct BidsResponse {
    pub bids: Vec<BidResponse>,
}

/// One bid pool.
#[derive(Clone, Copy, Debug, PartialEq, Eq, Structural)]
pub struct BidPoolResponse {
    pub sum_snapshot: Decimal256,
    pub product_snapshot: Decimal256,
    pub total_bid_amount: Uint256,
    pub premium_rate: Decimal256,
    pub current_epoch: u128,
    pub current_scale: u128,
}

/// A page of bid pools.
#[derive(Debug, PartialEq, Eq)]
pub struct BidPoolsResponse {
    pub bid_pools: Vec<BidPoolResponse>,
}

/// The answer that shows `config`.
pub open spec fn config_response() -> spec_fn(Config) -> ConfigResponse {
    |config: Config|
        ConfigResponse {
            owner: config.owner,
            oracle_contract: config.oracle_contract,
            stable_denom: config.stable_denom,
            safe_ratio: config.safe_ratio,
            bid_fee: config.bid_fee,
            liquidation_threshold: config.liquidation_threshold,
            price_timeframe: config.price_timeframe,
            waiting_period: config.waiting_period,
        }
}

/// The answer that shows `bid`.
pub open spec fn bid_response() -> spec_fn(Bid) -> BidResponse {
    |bid: Bid|
        BidResponse {
            idx: bid.idx,
            collateral_token: bid.collateral_token,
            bidder: bid.bidder,
            amount: bid.amount,
            premium_slot: bid.premium_slot,
            pending_liquidated_collateral: bid.pending_liquidated_collateral,
            product_snapshot: bid.product_snapshot,
            sum_snapshot: bid.sum_snapshot,
            wait_end: bid.wait_end,
            epoch_snapshot: bid.epoch_snapshot,
            scale_snapshot: bid.scale_snapshot,
        }
}

/// The answer that shows `pool`.
pub open spec fn bid_pool_response() -> spec_fn(BidPool) -> BidPoolResponse {
    |pool: BidPool|
        BidPoolResponse {
            sum_snapshot: pool.sum_snapshot,
            product_snapshot: pool.product_snapshot,
            total_bid_amount: pool.total_bid_amount,
            premium_rate: pool.premium_rate,
            current_epoch: pool.current_epoch,
            current_scale: pool.current_scale,
        }
}

impl ConfigResponse {
    /// The answer that shows `config`.
    pub fn from_config(config: Config) -> (r: ConfigResponse)
        ensures
            r == config_response()(config),
    {
        ConfigResponse {
            owner: config.owner,
            oracle_contract: config.oracle_contract,
            stable_denom: config.stable_denom,
            safe_ratio: config.safe_ratio,
            bid_fee: config.bid_fee,
            liquidation_threshold: config.liquidation_threshold,
            price_timeframe: config.price_timeframe,
            waiting_period: config.waiting_period,
        }
    }
}

impl BidResponse {
    /// The answer that shows `bid`.
    pub fn from_bid(bid: Bid) -> (r: BidResponse)
        ensures
            r == bid_response()(bid),
    {
        BidResponse {
            idx: bid.idx,
            collateral_token: bid.collateral_token,
            bidder: bid.bidder,
            amount: bid.amount,
            premium_slot: bid.premium_slot,
            pending_liquidated_collateral: bid.pending_liquidated_collateral,
            product_snapshot: bid.product_snapshot,
            sum_snapshot: bid.sum_snapshot,
            wait_end: bid.wait_end,
            epoch_snapshot: bid.epoch_snapshot,
            scale_snapshot: bid.scale_snapshot,
        }
    }
}

impl BidPoolResponse {
    /// The answer that shows `pool`.
    pub fn from_pool(pool: BidPool) -> (r: BidPoolResponse)
        ensures
            r == bid_pool_response()(pool),
    {
        BidPoolResponse {
            sum_snapshot: pool.sum_snapshot,
            product_snapshot: pool.product_snapshot,
            total_bid_amount: pool.total_bid_amount,
            premium_rate: pool.premium_rate,
            current_epoch: pool.current_epoch,
            current_scale: pool.current_scale,
        }
    }
}

} // verus!
