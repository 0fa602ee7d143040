//! Messages of the companion contract that holds the safe ratio and the
//! liquidation threshold, and the owner's update of that record.

use crate::error::Error;
use crate::liquidation::TokensHuman;
use crate::math::{Decimal256, Uint256};
use vstd::prelude::*;

verus! {

/// Sets the record up.
#[derive(Debug, PartialEq, Eq)]
pub struct InitMsg {
    pub owner: String,
    /// Share of the borrow limit that a loan is brought back to; below 1.0.
    pub safe_ratio: Decimal256,
    /// Liquidation amounts under this are left out of a liquidation.
    pub min_liquidation: Uint256,
    /// Collateral value, in the stable asset, under which all collateral is
    /// liquidated.
    pub liquidation_threshold: Uint256,
}

/// Changes to the record.
#[derive(Debug, PartialEq, Eq)]
pub enum HandleMsg {
    /// Replaces the fields that are given and leaves the others as they are.
    UpdateConfig {
        owner: Option<String>,
        safe_ratio: Option<Decimal256>,
        min_liquidation: Option<Uint256>,
        liquidation_threshold: Option<Uint256>,
    },
}

/// Questions to the contract.
#[derive(Debug, PartialEq, Eq)]
pub enum QueryMsg {
    Config {  },
    LiquidationAmount {
        borrow_amount: Uint256,
        borrow_limit: Uint256,
        stable_denom: String,
        collaterals: TokensHuman,
        collateral_prices: Vec<Decimal256>,
    },
}

/// The record as it stands.
#[derive(Debug, PartialEq, Eq)]
pub struct ConfigResponse {
    pub owner: String,
    pub safe_ratio: Decimal256,
    pub min_liquidation: Uint256,
    pub liquidation_threshold: Uint256,
}

/// The record that `msg` sets up.
pub open spec fn initial_config(msg: InitMsg) -> ConfigResponse {
    ConfigResponse {
        owner: msg.owner,
        safe_ratio: msg.safe_ratio,
        min_liquidation: msg.min_liquidation,
        liquidation_threshold: msg.liquidation_threshold,
    }
}

/// The record after `msg`: each field that the message gives replaced, the
/// others as they were.
pub open spec fn updated_config(config: ConfigResponse, msg: HandleMsg) -> ConfigResponse {
    match msg {
        HandleMsg::UpdateConfig { owner, safe_ratio, min_liquidation, liquidation_threshold } => {
            ConfigResponse {
                owner: match owner {
                    Some(o) => o,
                    None => config.owner,
                },
                safe_ratio: match safe_ratio {
                    Some(r) => r,
                    None => config.safe_ratio,
                },
                min_liquidation: match min_liquidation {
                    Some(m) => m,
                    None => config.min_liquidation,
                },
                liquidation_threshold: match liquidation_threshold {
                    Some(t) => t,
                    None => config.liquidation_threshold,
                },
            }
        },
    }
}

/// Sets the record up from `msg`.
pub fn init_config(msg: InitMsg) -> (r: ConfigResponse)
    ensures
        r == initial_config(msg),
{
    ConfigResponse {
        owner: msg.owner,
        safe_ratio: msg.safe_ratio,
        min_liquidation: msg.min_liquidation,
        liquidation_threshold: msg.liquidation_threshold,
    }
}

/// Applies `msg` to the record on behalf of `sender`. Only the owner may
/// change the record: for anyone else the answer is `Unauthorized`, and
/// nothing changes.
pub fn update_config(config: ConfigResponse, sender: &String, msg: HandleMsg) -> (r: Result<
    ConfigResponse,
    Error,
>)
    ensures
        r == if sender@ == config.owner@ {
            Ok::<ConfigResponse, Error>(updated_config(config, msg))
        } else {
            Err::<ConfigResponse, Error>(Error::Unauthorized)
        },
{
    if !(*sender == config.owner) {
        return Err(Error::Unauthorized);
    }
    match msg {
        HandleMsg::UpdateConfig { owner, safe_ratio, min_liquidation, liquidation_threshold } => {
            Ok(
                ConfigResponse {
                    owner: match owner {
                        Some(o) => o,
                        None => config.owner,
                    },
                    safe_ratio: match safe_ratio {
                        Some(r) => r,
                        None => config.safe_ratio,
                    },
                    min_liquidation: match min_liquidation {
                        Some(m) => m,
                        None => config.min_liquidation,
                    },
                    liquidation_threshold: match liquidation_threshold {
                        Some(t) => t,
                        None => config.liquidation_threshold,
                    },
                },
            )
        },
    }
}

} // verus!
