//! The queries of the liquidation queue, each answered from a ledger
//! snapshot.

use crate::error::Error;
use crate::liquidation::{
    compute_liquidation, liquidation_plan, prices_view, tokens_view, TokensHuman,
};
use crate::math::{Decimal256, Uint256};
use crate::paging::first_entries;
use crate::response::{
    bid_pool_response, bid_response, config_response, BidPoolResponse, BidPoolsResponse,
    BidResponse, BidsResponse, ConfigResponse, LiquidationAmountResponse,
};
use crate::state::{
    page_size, pool_of_entry, read_bid, read_bid_pool, read_bid_pools, read_bids_by_user,
    read_config, Ledger, MAX_LIMIT,
};
use vstd::prelude::*;

verus! {

/// The stored configuration; `NotFound` where the queue was never set up.
pub fn query_config(ledger: &Ledger) -> (r: Result<ConfigResponse, Error>)
    ensures
        match r {
            Ok(resp) => ledger.config matches Some(c) && resp == config_response()(c),
            Err(e) => ledger.config.is_none() && e == Error::NotFound,
        },
{
    match read_config(ledger) {
        Ok(config) => Ok(ConfigResponse::from_config(config)),
        Err(e) => Err(e),
    }
}

/// What `query_liquidation_amount` answers: `NotFound` where no
/// configuration is stored, else the liquidation plan under it.
pub open spec fn liquidation_answer(
    ledger: Ledger,
    tax_rate: nat,
    borrow_amount: nat,
    borrow_limit: nat,
    collaterals: Seq<(Seq<char>, nat)>,
    prices: Seq<nat>,
) -> Result<Seq<(Seq<char>, nat)>, Error> {
    match ledger.config {
        Some(config) => liquidation_plan(
            ledger,
            config,
            tax_rate,
            borrow_amount,
            borrow_limit,
            collaterals,
            prices,
        ),
        None => Err(Error::NotFound),
    }
}

/// Whether the outcome of the query holds the answer `v`.
pub open spec fn holds_answer(
    r: Result<LiquidationAmountResponse, Error>,
    v: Result<Seq<(Seq<char>, nat)>, Error>,
) -> bool {
    match r {
        Ok(resp) => v == Ok::<Seq<(Seq<char>, nat)>, Error>(tokens_view(resp.collaterals@)),
        Err(e) => v == Err::<Seq<(Seq<char>, nat)>, Error>(e),
    }
}

/// How much of each collateral is to be sold for a loan of `borrow_amount`
/// against a limit of `borrow_limit`, given the oracle price of each
/// collateral and the tax rate on transfers of the stable asset.
///
/// A loan within its limit gets an empty answer. Otherwise the premium
/// slots of every collateral are walked to find what the bids repay; where
/// that is no more than the debt, all collateral is returned as it is, else
/// every holding scaled by one ratio, empty holdings left out.
pub fn query_liquidation_amount(
    ledger: &Ledger,
    tax_rate: Decimal256,
    borrow_amount: Uint256,
    borrow_limit: Uint256,
    collaterals: TokensHuman,
    collateral_prices: Vec<Decimal256>,
) -> (r: Result<LiquidationAmountResponse, Error>)
    requires
        ledger.wf(),
    ensures
        holds_answer(
            r,
            liquidation_answer(
                *ledger,
                tax_rate@,
                borrow_amount@,
                borrow_limit@,
                tokens_view(collaterals@),
                prices_view(collateral_prices@),
            ),
        ),
        ledger.config.is_some() && collaterals@.len() == collateral_prices@.len()
            && borrow_amount@ <= borrow_limit@ ==> (r matches Ok(resp)
            && resp.collaterals@.len() == 0),
{
    let config = match read_config(ledger) {
        Ok(c) => c,
        Err(e) => {
            return Err(e);
        },
    };
    match compute_liquidation(
        ledger,
        &config,
        tax_rate,
        borrow_amount,
        borrow_limit,
        &collaterals,
        &collateral_prices,
    ) {
        Ok(plan) => Ok(LiquidationAmountResponse { collaterals: plan }),
        Err(e) => Err(e),
    }
}

/// The bid with index `bid_idx`; `NotFound` where there is none.
pub fn query_bid(ledger: &Ledger, bid_idx: u128) -> (r: Result<BidResponse, Error>)
    requires
        ledger.wf(),
    ensures
        match r {
            Ok(resp) => ledger.bid_at(bid_idx) matches Some(bid) && resp == bid_response()(bid),
            Err(e) => ledger.bid_at(bid_idx).is_none() && e == Error::NotFound,
        },
{
    match read_bid(ledger, bid_idx) {
        Ok(bid) => Ok(BidResponse::from_bid(bid)),
        Err(e) => Err(e),
    }
}

/// Whether a requested page size is acceptable: none, or one of at most
/// `MAX_LIMIT`.
pub open spec fn is_valid_limit(limit: Option<u8>) -> bool {
    match limit {
        Some(n) => n <= MAX_LIMIT,
        None => true,
    }
}

/// Whether a requested page size is acceptable.
pub fn check_limit(limit: Option<u8>) -> (r: Result<(), Error>)
    ensures
        match r {
            Ok(_) => is_valid_limit(limit),
            Err(e) => !is_valid_limit(limit) && e == Error::InvalidInput,
        },
{
    match limit {
        Some(n) => if n <= MAX_LIMIT {
            Ok(())
        } else {
            Err(Error::InvalidInput)
        },
        None => Ok(()),
    }
}

/// One page of the bids of `bidder` for `collateral_token`: those with an
/// index above `start_after`, by ascending index, at most `limit` of them,
/// or `DEFAULT_LIMIT` where no limit is given. A limit above `MAX_LIMIT` is
/// refused as `InvalidInput`.
pub fn query_bids_by_user(
    ledger: &Ledger,
    collateral_token: String,
    bidder: String,
    start_after: Option<u128>,
    limit: Option<u8>,
) -> (r: Result<BidsResponse, Error>)
    ensures
        match r {
            Ok(resp) => {
                &&& is_valid_limit(limit)
                &&& resp.bids@ == first_entries(
                    ledger.bids_of(collateral_token@, bidder@, start_after),
                    page_size(limit),
                ).map_values(bid_response())
                &&& resp.bids@.len() <= page_size(limit)
                &&& limit matches Some(n) ==> resp.bids@.len() <= n
            },
            Err(e) => !is_valid_limit(limit) && e == Error::InvalidInput,
        },
{
    match check_limit(limit) {
        Ok(_) => {},
        Err(e) => {
            return Err(e);
        },
    }
    let page = read_bids_by_user(ledger, &collateral_token, &bidder, start_after, limit);
    let ghost listed = page@;
    let mut bids: Vec<BidResponse> = Vec::new();
    let mut i: usize = 0;
    while i < page.len()
        invariant
            i <= page@.len(),
            page@ == listed,
            bids@ == listed.take(i as int).map_values(bid_response()),
        decreases page@.len() - i,
    {
        let bid = page[i].clone();
        bids.push(BidResponse::from_bid(bid));
        assert(listed.take(i + 1).map_values(bid_response()) =~= listed.take(
            i as int,
        ).map_values(bid_response()).push(bid_response()(listed[i as int])));
        i += 1;
    }
    assert(listed.take(i as int) =~= listed);
    Ok(BidsResponse { bids })
}

/// The pool of `collateral_token` at `bid_slot`; `NotFound` where that slot
/// was never funded.
pub fn query_bid_pool(ledger: &Ledger, collateral_token: String, bid_slot: u8) -> (r: Result<
    BidPoolResponse,
    Error,
>)
    requires
        ledger.wf(),
    ensures
        match r {
            Ok(resp) => ledger.pool_at(collateral_token@, bid_slot) matches Some(pool) && resp
                == bid_pool_response()(pool),
            Err(e) => ledger.pool_at(collateral_token@, bid_slot).is_none() && e
                == Error::NotFound,
        },
{
    match read_bid_pool(ledger, &collateral_token, bid_slot) {
        Ok(pool) => Ok(BidPoolResponse::from_pool(pool)),
        Err(e) => Err(e),
    }
}

/// One page of the funded pools of `collateral_token`: those at a slot
/// above `start_after`, by ascending slot, at most `limit` of them, or
/// `DEFAULT_LIMIT` where no limit is given. A limit above `MAX_LIMIT` is
/// refused as `InvalidInput`.
pub fn query_bid_pools(
    ledger: &Ledger,
    collateral_token: String,
    start_after: Option<u8>,
    limit: Option<u8>,
) -> (r: Result<BidPoolsResponse, Error>)
    ensures
        match r {
            Ok(resp) => {
                &&& is_valid_limit(limit)
                &&& resp.bid_pools@ == first_entries(
                    ledger.pools_of(collateral_token@, start_after),
                    page_size(limit),
                ).map_values(pool_of_entry()).map_values(bid_pool_response())
                &&& resp.bid_pools@.len() <= page_size(limit)
                &&& limit matches Some(n) ==> resp.bid_pools@.len() <= n
            },
            Err(e) => !is_valid_limit(limit) && e == Error::InvalidInput,
        },
{
    match check_limit(limit) {
        Ok(_) => {},
        Err(e) => {
            return Err(e);
        },
    }
    let page = read_bid_pools(ledger, &collateral_token, start_after, limit);
    let ghost listed = page@;
    let mut bid_pools: Vec<BidPoolResponse> = Vec::new();
    let mut i: usize = 0;
    while i < page.len()
        invariant
            i <= page@.len(),
            page@ == listed,
            bid_pools@ == listed.take(i as int).map_values(bid_pool_response()),
        decreases page@.len() - i,
    {
        bid_pools.push(BidPoolResponse::from_pool(page[i]));
        assert(listed.take(i + 1).map_values(bid_pool_response()) =~= listed.take(
            i as int,
        ).map_values(bid_pool_response()).push(bid_pool_response()(listed[i as int])));
        i += 1;
    }
    assert(listed.take(i as int) =~= listed);
    Ok(BidPoolsResponse { bid_pools })
}

} // verus!
