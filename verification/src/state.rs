//! The ledger: configuration, collateral registry, bid pools and bids, held
//! as an explicit snapshot that every read goes through.

use crate::error::Error;
use crate::math::{Decimal256, Uint256};
use crate::paging::{
    behind_cursor, first_entries, is_ascending, is_ascending_among, lemma_page_then_rest,
};
use vstd::prelude::*;

verus! {

/// Page size used when a listing names none.
pub const DEFAULT_LIMIT: u8 = 10;

/// Largest page size a listing returns; a larger request is cut to it.
pub const MAX_LIMIT: u8 = 30;

/// Parameters of one liquidation queue.
#[derive(Debug, PartialEq, Eq)]
pub struct Config {
    pub owner: String,
    pub oracle_contract: String,
    pub stable_denom: String,
    /// Share of the borrow limit that a loan is brought back to.
    pub safe_ratio: Decimal256,
    /// Share of the proceeds kept as fee.
    pub bid_fee: Decimal256,
    /// Collateral value under which a position is unwound against the whole
    /// debt.
    pub liquidation_threshold: Uint256,
    pub price_timeframe: u64,
    pub waiting_period: u64,
}

impl Clone for Config {
    fn clone(&self) -> (r: Self)
        ensures
            r == *self,
    {
        Config {
            owner: self.owner.clone(),
            oracle_contract: self.oracle_contract.clone(),
            stable_denom: self.stable_denom.clone(),
            safe_ratio: self.safe_ratio,
            bid_fee: self.bid_fee,
            liquidation_threshold: self.liquidation_threshold,
            price_timeframe: self.price_timeframe,
            waiting_period: self.waiting_period,
        }
    }
}

/// What is registered for one collateral type.
#[derive(Debug, PartialEq, Eq)]
pub struct CollateralInfo {
    pub collateral_token: String,
    /// Number of premium slots; slots are numbered from 0.
    pub max_slot: u8,
}

impl Clone for CollateralInfo {
    fn clone(&self) -> (r: Self)
        ensures
            r == *self,
    {
        CollateralInfo { collateral_token: self.collateral_token.clone(), max_slot: self.max_slot }
    }
}

/// The pooled bids for one collateral type at one premium.
#[derive(Clone, Copy, Debug, PartialEq, Eq, Structural)]
pub struct BidPool {
    pub sum_snapshot: Decimal256,
    pub product_snapshot: Decimal256,
    /// Stable value available and unfilled.
    pub total_bid_amount: Uint256,
    /// Discount from the oracle price at which this pool buys.
    pub premium_rate: Decimal256,
    pub current_epoch: u128,
    pub current_scale: u128,
}

/// A bid pool with the collateral type and slot it is stored under.
#[derive(Debug, PartialEq, Eq)]
pub struct PoolEntry {
    pub collateral_token: String,
    pub slot: u8,
    pub pool: BidPool,
}

/// One bidder's standing offer.
#[derive(Debug, PartialEq, Eq)]
pub struct Bid {
    pub idx: u128,
    pub collateral_token: String,
    pub premium_slot: u8,
    pub bidder: String,
    pub amount: Uint256,
    pub product_snapshot: Decimal256,
    pub sum_snapshot: Decimal256,
    pub pending_liquidated_collateral: Uint256,
    pub wait_end: Option<u64>,
    pub epoch_snapshot: u128,
    pub scale_snapshot: u128,
}

impl Clone for Bid {
    fn clone(&self) -> (r: Self)
        ensures
            r == *self,
    {
        Bid {
            idx: self.idx,
            collateral_token: self.collateral_token.clone(),
            premium_slot: self.premium_slot,
            bidder: self.bidder.clone(),
            amount: self.amount,
            product_snapshot: self.product_snapshot,
            sum_snapshot: self.sum_snapshot,
            pending_liquidated_collateral: self.pending_liquidated_collateral,
            wait_end: self.wait_end,
            epoch_snapshot: self.epoch_snapshot,
            scale_snapshot: self.scale_snapshot,
        }
    }
}

/// A snapshot of everything the queue has stored.
pub struct Ledger {
    pub config: Option<Config>,
    pub collateral_infos: Vec<CollateralInfo>,
    pub bid_pools: Vec<PoolEntry>,
    pub bids: Vec<Bid>,
}

impl Ledger {
    /// Bids are held by ascending index, the pools of one collateral type by
    /// ascending slot, and no collateral type is registered twice.
    pub open spec fn wf(&self) -> bool {
        &&& forall|i: int, j: int|
            0 <= i < j < self.bids@.len() ==> self.bids@[i].idx < self.bids@[j].idx
        &&& forall|i: int, j: int|
            0 <= i < j < self.bid_pools@.len() && self.bid_pools@[i].collateral_token@
                == self.bid_pools@[j].collateral_token@ ==> self.bid_pools@[i].slot
                < self.bid_pools@[j].slot
        &&& forall|i: int, j: int|
            0 <= i < j < self.collateral_infos@.len() ==> self.collateral_infos@[i].collateral_token@
                != self.collateral_infos@[j].collateral_token@
    }

    /// Whether entry `i` of the registry is the one of `token`.
    pub open spec fn is_info_of(&self, i: int, token: Seq<char>) -> bool {
        0 <= i < self.collateral_infos@.len() && self.collateral_infos@[i].collateral_token@
            == token
    }

    /// What is registered for `token`, if anything.
    pub open spec fn collateral_info(&self, token: Seq<char>) -> Option<CollateralInfo> {
        if exists|i: int| self.is_info_of(i, token) {
            Some(self.collateral_infos@[choose|i: int| self.is_info_of(i, token)])
        } else {
            None
        }
    }

    /// Whether entry `i` of the pools is the one of `token` at `slot`.
    pub open spec fn is_pool_of(&self, i: int, token: Seq<char>, slot: u8) -> bool {
        0 <= i < self.bid_pools@.len() && self.bid_pools@[i].collateral_token@ == token
            && self.bid_pools@[i].slot == slot
    }

    /// The pool of `token` at `slot`, if it was ever funded.
    pub open spec fn pool_at(&self, token: Seq<char>, slot: u8) -> Option<BidPool> {
        if exists|i: int| self.is_pool_of(i, token, slot) {
            Some(self.bid_pools@[choose|i: int| self.is_pool_of(i, token, slot)].pool)
        } else {
            None
        }
    }

    /// Whether entry `i` of the bids has index `idx`.
    pub open spec fn is_bid_of(&self, i: int, idx: u128) -> bool {
        0 <= i < self.bids@.len() && self.bids@[i].idx == idx
    }

    /// The bid with index `idx`, if there is one.
    pub open spec fn bid_at(&self, idx: u128) -> Option<Bid> {
        if exists|i: int| self.is_bid_of(i, idx) {
            Some(self.bids@[choose|i: int| self.is_bid_of(i, idx)])
        } else {
            None
        }
    }

    /// Whether the first `n` bids ascend by index.
    pub open spec fn bids_ascend_to(&self, n: int) -> bool {
        forall|i: int, j: int| 0 <= i < j < n ==> self.bids@[i].idx < self.bids@[j].idx
    }

    /// Whether, among the first `n` pools and the first `m` before pool `n`,
    /// the pools of one collateral type ascend by slot.
    pub open spec fn pools_ascend_to(&self, n: int, m: int) -> bool {
        forall|i: int, j: int|
            0 <= i < j <= n && (j < n || i < m) && self.bid_pools@[i].collateral_token@
                == self.bid_pools@[j].collateral_token@ ==> self.bid_pools@[i].slot
                < self.bid_pools@[j].slot
    }

    /// Whether, among the first `n` registrations and the first `m` before
    /// registration `n`, no collateral type occurs twice.
    pub open spec fn infos_differ_to(&self, n: int, m: int) -> bool {
        forall|i: int, j: int|
            0 <= i < j <= n && (j < n || i < m) ==> self.collateral_infos@[i].collateral_token@
                != self.collateral_infos@[j].collateral_token@
    }

    /// Tests whether the ledger is well formed.
    pub fn is_well_formed(&self) -> (r: bool)
        ensures
            r == self.wf(),
    {
        let mut k: usize = 1;
        while k < self.bids.len()
            invariant
                1 <= k,
                self.bids_ascend_to(k as int),
            decreases self.bids@.len() - k,
        {
            if self.bids[k - 1].idx >= self.bids[k].idx {
                return false;
            }
            k += 1;
        }
        let mut j: usize = 0;
        while j < self.bid_pools.len()
            invariant
                j <= self.bid_pools@.len(),
                self.bids_ascend_to(self.bids@.len() as int),
                self.pools_ascend_to(j as int, 0),
            decreases self.bid_pools@.len() - j,
        {
            let mut i: usize = 0;
            while i < j
                invariant
                    i <= j < self.bid_pools@.len(),
                    self.pools_ascend_to(j as int, i as int),
                decreases j - i,
            {
                if self.bid_pools[i].slot >= self.bid_pools[j].slot
                    && self.bid_pools[i].collateral_token == self.bid_pools[j].collateral_token {
                    return false;
                }
                i += 1;
            }
            j += 1;
        }
        let mut j: usize = 0;
        while j < self.collateral_infos.len()
            invariant
                j <= self.collateral_infos@.len(),
                self.bids_ascend_to(self.bids@.len() as int),
                self.pools_ascend_to(self.bid_pools@.len() as int, 0),
                self.infos_differ_to(j as int, 0),
            decreases self.collateral_infos@.len() - j,
        {
            let mut i: usize = 0;
            while i < j
                invariant
                    i <= j < self.collateral_infos@.len(),
                    self.infos_differ_to(j as int, i as int),
                decreases j - i,
            {
                if self.collateral_infos[i].collateral_token
                    == self.collateral_infos[j].collateral_token {
                    return false;
                }
                i += 1;
            }
            j += 1;
        }
        true
    }

    /// A ledger with nothing stored.
    pub fn new() -> (r: Ledger)
        ensures
            r.wf(),
            r.config.is_none(),
            r.collateral_infos@.len() == 0,
            r.bid_pools@.len() == 0,
            r.bids@.len() == 0,
    {
        Ledger { config: None, collateral_infos: Vec::new(), bid_pools: Vec::new(), bids: Vec::new() }
    }
}

/// The configuration, or `NotFound` where none was stored.
pub fn read_config(ledger: &Ledger) -> (r: Result<Config, Error>)
    ensures
        match r {
            Ok(c) => ledger.config == Some(c),
            Err(e) => ledger.config.is_none() && e == Error::NotFound,
        },
{
    match &ledger.config {
        Some(c) => Ok(c.clone()),
        None => Err(Error::NotFound),
    }
}

/// What is registered for `collateral_token`, or `NotFound`.
pub fn read_collateral_info(ledger: &Ledger, collateral_token: &String) -> (r: Result<
    CollateralInfo,
    Error,
>)
    requires
        ledger.wf(),
    ensures
        match r {
            Ok(info) => ledger.collateral_info(collateral_token@) == Some(info),
            Err(e) => ledger.collateral_info(collateral_token@).is_none() && e == Error::NotFound,
        },
{
    let mut i: usize = 0;
    while i < ledger.collateral_infos.len()
        invariant
            ledger.wf(),
            i <= ledger.collateral_infos@.len(),
            forall|k: int| 0 <= k < i ==> !ledger.is_info_of(k, collateral_token@),
        decreases ledger.collateral_infos@.len() - i,
    {
        if ledger.collateral_infos[i].collateral_token == *collateral_token {
            proof {
                assert(ledger.is_info_of(i as int, collateral_token@));
                let j = choose|j: int| ledger.is_info_of(j, collateral_token@);
                assert(j == i);
            }
            return Ok(ledger.collateral_infos[i].clone());
        }
        i += 1;
    }
    Err(Error::NotFound)
}

/// The pool of `collateral_token` at `slot`, or `NotFound` where that slot
/// was never funded.
pub fn read_bid_pool(ledger: &Ledger, collateral_token: &String, slot: u8) -> (r: Result<
    BidPool,
    Error,
>)
    requires
        ledger.wf(),
    ensures
        match r {
            Ok(pool) => ledger.pool_at(collateral_token@, slot) == Some(pool),
            Err(e) => ledger.pool_at(collateral_token@, slot).is_none() && e == Error::NotFound,
        },
{
    let mut i: usize = 0;
    while i < ledger.bid_pools.len()
        invariant
            ledger.wf(),
            i <= ledger.bid_pools@.len(),
            forall|k: int| 0 <= k < i ==> !ledger.is_pool_of(k, collateral_token@, slot),
        decreases ledger.bid_pools@.len() - i,
    {
        if ledger.bid_pools[i].slot == slot && ledger.bid_pools[i].collateral_token
            == *collateral_token {
            proof {
                assert(ledger.is_pool_of(i as int, collateral_token@, slot));
                let j = choose|j: int| ledger.is_pool_of(j, collateral_token@, slot);
                assert(j == i);
            }
            return Ok(ledger.bid_pools[i].pool);
        }
        i += 1;
    }
    Err(Error::NotFound)
}

/// The bid with index `idx`, or `NotFound`.
pub fn read_bid(ledger: &Ledger, idx: u128) -> (r: Result<Bid, Error>)
    requires
        ledger.wf(),
    ensures
        match r {
            Ok(bid) => ledger.bid_at(idx) == Some(bid),
            Err(e) => ledger.bid_at(idx).is_none() && e == Error::NotFound,
        },
{
    let mut i: usize = 0;
    while i < ledger.bids.len()
        invariant
            ledger.wf(),
            i <= ledger.bids@.len(),
            forall|k: int| 0 <= k < i ==> !ledger.is_bid_of(k, idx),
        decreases ledger.bids@.len() - i,
    {
        if ledger.bids[i].idx == idx {
            proof {
                assert(ledger.is_bid_of(i as int, idx));
                let j = choose|j: int| ledger.is_bid_of(j, idx);
                assert(j == i);
            }
            return Ok(ledger.bids[i].clone());
        }
        i += 1;
    }
    Err(Error::NotFound)
}

/// The number of entries a listing returns at most: the limit asked for, or
/// `DEFAULT_LIMIT` where none is, and never more than `MAX_LIMIT`.
pub open spec fn page_size(limit: Option<u8>) -> nat {
    let wanted = match limit {
        Some(n) => n,
        None => DEFAULT_LIMIT,
    };
    if wanted <= MAX_LIMIT {
        wanted as nat
    } else {
        MAX_LIMIT as nat
    }
}

/// The index of a bid, by which bids are listed.
pub open spec fn bid_key() -> spec_fn(Bid) -> int {
    |b: Bid| b.idx as int
}

/// Whether a bid is `bidder`'s and for `token`.
pub open spec fn is_bid_of_holder(token: Seq<char>, bidder: Seq<char>) -> spec_fn(Bid) -> bool {
    |b: Bid| b.collateral_token@ == token && b.bidder@ == bidder
}

/// The slot of a pool, by which pools are listed.
pub open spec fn pool_key() -> spec_fn(PoolEntry) -> int {
    |e: PoolEntry| e.slot as int
}

/// Whether a pool is one of `token`.
pub open spec fn is_pool_of_token(token: Seq<char>) -> spec_fn(PoolEntry) -> bool {
    |e: PoolEntry| e.collateral_token@ == token
}

/// The pool of an entry.
pub open spec fn pool_of_entry() -> spec_fn(PoolEntry) -> BidPool {
    |e: PoolEntry| e.pool
}

/// A bid index as a cursor.
pub open spec fn bid_cursor(start_after: Option<u128>) -> Option<int> {
    match start_after {
        Some(c) => Some(c as int),
        None => None,
    }
}

/// A slot as a cursor.
pub open spec fn slot_cursor(start_after: Option<u8>) -> Option<int> {
    match start_after {
        Some(c) => Some(c as int),
        None => None,
    }
}

impl Ledger {
    /// The bids of `bidder` for `token` with an index above `start_after`,
    /// by ascending index.
    pub open spec fn bids_of(
        &self,
        token: Seq<char>,
        bidder: Seq<char>,
        start_after: Option<u128>,
    ) -> Seq<Bid> {
        self.bids@.filter(
            behind_cursor(is_bid_of_holder(token, bidder), bid_key(), bid_cursor(start_after)),
        )
    }

    /// The funded pools of `token` at a slot above `start_after`, by
    /// ascending slot.
    pub open spec fn pools_of(&self, token: Seq<char>, start_after: Option<u8>) -> Seq<PoolEntry> {
        self.bid_pools@.filter(
            behind_cursor(is_pool_of_token(token), pool_key(), slot_cursor(start_after)),
        )
    }
}

/// The page size for a requested limit.
pub fn page_limit(limit: Option<u8>) -> (r: usize)
    ensures
        r == page_size(limit),
{
    let wanted: u8 = match limit {
        Some(n) => n,
        None => DEFAULT_LIMIT,
    };
    if wanted <= MAX_LIMIT {
        wanted as usize
    } else {
        MAX_LIMIT as usize
    }
}

/// A selection that was cut off after `size` entries is the first page of
/// the whole selection.
proof fn lemma_cut_selection_is_page<T>(
    s: Seq<T>,
    test: spec_fn(T) -> bool,
    i: int,
    size: nat,
)
    requires
        0 <= i <= s.len(),
        s.take(i).filter(test).len() <= size,
        i == s.len() || s.take(i).filter(test).len() == size,
    ensures
        s.take(i).filter(test) == first_entries(s.filter(test), size),
{
    let head = s.take(i);
    let tail = s.skip(i);
    assert(s =~= head + tail);
    Seq::filter_distributes_over_add(head, tail, test);
    if i == s.len() {
        assert(head =~= s);
    } else {
        assert(head.filter(test) =~= (head.filter(test) + tail.filter(test)).take(size as int));
        assert(s.filter(test).len() <= size ==> tail.filter(test).len() == 0);
        assert(tail.filter(test).len() == 0 ==> head.filter(test) + tail.filter(test)
            =~= head.filter(test));
    }
}

/// The bids of `bidder` for `collateral_token` with an index above
/// `start_after`, by ascending index, cut off after one page.
pub fn read_bids_by_user(
    ledger: &Ledger,
    collateral_token: &String,
    bidder: &String,
    start_after: Option<u128>,
    limit: Option<u8>,
) -> (r: Vec<Bid>)
    ensures
        r@ == first_entries(
            ledger.bids_of(collateral_token@, bidder@, start_after),
            page_size(limit),
        ),
        r@.len() <= page_size(limit),
        limit matches Some(n) ==> r@.len() <= n,
{
    let size = page_limit(limit);
    let ghost test = behind_cursor(
        is_bid_of_holder(collateral_token@, bidder@),
        bid_key(),
        bid_cursor(start_after),
    );
    let mut page: Vec<Bid> = Vec::new();
    let mut i: usize = 0;
    proof {
        reveal(Seq::filter);
        assert(ledger.bids@.take(0).filter(test) =~= Seq::empty());
    }
    while i < ledger.bids.len() && page.len() < size
        invariant
            i <= ledger.bids@.len(),
            page@.len() <= size,
            page@ == ledger.bids@.take(i as int).filter(test),
            test == behind_cursor(
                is_bid_of_holder(collateral_token@, bidder@),
                bid_key(),
                bid_cursor(start_after),
            ),
        decreases ledger.bids@.len() - i,
    {
        let bid = &ledger.bids[i];
        let behind = match start_after {
            Some(c) => bid.idx > c,
            None => true,
        };
        proof {
            assert(ledger.bids@.take(i + 1) =~= ledger.bids@.take(i as int).push(*bid));
            ledger.bids@.take(i as int).lemma_filter_push(*bid, test);
        }
        if behind && bid.collateral_token == *collateral_token && bid.bidder == *bidder {
            page.push(bid.clone());
        }
        i += 1;
    }
    proof {
        lemma_cut_selection_is_page(ledger.bids@, test, i as int, size as nat);
    }
    page
}

/// The funded pools of `collateral_token` at a slot above `start_after`, by
/// ascending slot, cut off after one page.
pub fn read_bid_pools(
    ledger: &Ledger,
    collateral_token: &String,
    start_after: Option<u8>,
    limit: Option<u8>,
) -> (r: Vec<BidPool>)
    ensures
        r@ == first_entries(ledger.pools_of(collateral_token@, start_after), page_size(limit))
            .map_values(pool_of_entry()),
        r@.len() <= page_size(limit),
        limit matches Some(n) ==> r@.len() <= n,
{
    let size = page_limit(limit);
    let ghost test = behind_cursor(
        is_pool_of_token(collateral_token@),
        pool_key(),
        slot_cursor(start_after),
    );
    let mut page: Vec<BidPool> = Vec::new();
    let mut i: usize = 0;
    proof {
        reveal(Seq::filter);
        assert(ledger.bid_pools@.take(0).filter(test) =~= Seq::empty());
        assert(page@ =~= ledger.bid_pools@.take(0).filter(test).map_values(pool_of_entry()));
    }
    while i < ledger.bid_pools.len() && page.len() < size
        invariant
            i <= ledger.bid_pools@.len(),
            page@.len() <= size,
            page@ == ledger.bid_pools@.take(i as int).filter(test).map_values(pool_of_entry()),
            test == behind_cursor(
                is_pool_of_token(collateral_token@),
                pool_key(),
                slot_cursor(start_after),
            ),
        decreases ledger.bid_pools@.len() - i,
    {
        let entry = &ledger.bid_pools[i];
        let behind = match start_after {
            Some(c) => entry.slot > c,
            None => true,
        };
        let ghost before = ledger.bid_pools@.take(i as int).filter(test);
        proof {
            assert(ledger.bid_pools@.take(i + 1) =~= ledger.bid_pools@.take(i as int).push(
                *entry,
            ));
            ledger.bid_pools@.take(i as int).lemma_filter_push(*entry, test);
            assert(before.push(*entry).map_values(pool_of_entry()) =~= before.map_values(
                pool_of_entry(),
            ).push(entry.pool));
        }
        if behind && entry.collateral_token == *collateral_token {
            page.push(entry.pool);
        }
        i += 1;
    }
    proof {
        lemma_cut_selection_is_page(ledger.bid_pools@, test, i as int, size as nat);
    }
    page
}

/// Reading the bids of one bidder a page at a time, each page starting
/// after the index of the last bid seen, reads every bid once and in order:
/// a page and all that lies behind its last bid make up all that lay behind
/// the page's own cursor. A page never holds more than the limit asked for.
pub proof fn lemma_bid_pages_cover(
    ledger: Ledger,
    token: Seq<char>,
    bidder: Seq<char>,
    start_after: Option<u128>,
    limit: Option<u8>,
)
    requires
        ledger.wf(),
        limit != Some(0u8),
        ledger.bids_of(token, bidder, start_after).len() > 0,
    ensures
        ({
            let all = ledger.bids_of(token, bidder, start_after);
            let page = first_entries(all, page_size(limit));
            &&& 0 < page.len() <= page_size(limit)
            &&& limit matches Some(n) ==> page.len() <= n
            &&& is_ascending(all, bid_key())
            &&& all == page + ledger.bids_of(token, bidder, Some(page.last().idx))
        }),
{
    lemma_page_then_rest(
        ledger.bids@,
        is_bid_of_holder(token, bidder),
        bid_key(),
        bid_cursor(start_after),
        page_size(limit),
    );
}

/// Reading the pools of one collateral type a page at a time, each page
/// starting after the slot of the last pool seen, reads every funded pool
/// once and in order. A page never holds more than the limit asked for.
pub proof fn lemma_pool_pages_cover(
    ledger: Ledger,
    token: Seq<char>,
    start_after: Option<u8>,
    limit: Option<u8>,
)
    requires
        ledger.wf(),
        limit != Some(0u8),
        ledger.pools_of(token, start_after).len() > 0,
    ensures
        ({
            let all = ledger.pools_of(token, start_after);
            let page = first_entries(all, page_size(limit));
            &&& 0 < page.len() <= page_size(limit)
            &&& limit matches Some(n) ==> page.len() <= n
            &&& is_ascending(all, pool_key())
            &&& all == page + ledger.pools_of(token, Some(page.last().slot))
        }),
{
    assert(is_ascending_among(ledger.bid_pools@, is_pool_of_token(token), pool_key()));
    lemma_page_then_rest(
        ledger.bid_pools@,
        is_pool_of_token(token),
        pool_key(),
        slot_cursor(start_after),
        page_size(limit),
    );
}

/// A page of bids that is not full is the last: it holds all that lay
/// behind its cursor.
pub proof fn lemma_short_bid_page_is_last(
    ledger: Ledger,
    token: Seq<char>,
    bidder: Seq<char>,
    start_after: Option<u128>,
    limit: Option<u8>,
)
    requires
        first_entries(ledger.bids_of(token, bidder, start_after), page_size(limit)).len()
            < page_size(limit),
    ensures
        first_entries(ledger.bids_of(token, bidder, start_after), page_size(limit))
            == ledger.bids_of(token, bidder, start_after),
{
}

/// A page of pools that is not full is the last: it holds all that lay
/// behind its cursor.
pub proof fn lemma_short_pool_page_is_last(
    ledger: Ledger,
    token: Seq<char>,
    start_after: Option<u8>,
    limit: Option<u8>,
)
    requires
        first_entries(ledger.pools_of(token, start_after), page_size(limit)).len() < page_size(
            limit,
        ),
    ensures
        first_entries(ledger.pools_of(token, start_after), page_size(limit)) == ledger.pools_of(
            token,
            start_after,
        ),
{
}

/// In a well-formed ledger an entry of the registry is what a lookup of its
/// collateral type finds.
pub proof fn lemma_info_is_found(ledger: Ledger, i: int, token: Seq<char>)
    requires
        ledger.wf(),
        ledger.is_info_of(i, token),
    ensures
        ledger.collateral_info(token) == Some(ledger.collateral_infos@[i]),
{
    let j = choose|j: int| ledger.is_info_of(j, token);
    assert(j == i);
}

/// In a well-formed ledger a pool entry is what a lookup of its collateral
/// type and slot finds.
pub proof fn lemma_pool_is_found(ledger: Ledger, i: int, token: Seq<char>, slot: u8)
    requires
        ledger.wf(),
        ledger.is_pool_of(i, token, slot),
    ensures
        ledger.pool_at(token, slot) == Some(ledger.bid_pools@[i].pool),
{
    let j = choose|j: int| ledger.is_pool_of(j, token, slot);
    assert(j == i);
}

/// In a well-formed ledger a bid is what a lookup of its index finds.
pub proof fn lemma_bid_is_found(ledger: Ledger, i: int, idx: u128)
    requires
        ledger.wf(),
        ledger.is_bid_of(i, idx),
    ensures
        ledger.bid_at(idx) == Some(ledger.bids@[i]),
{
    let j = choose|j: int| ledger.is_bid_of(j, idx);
    assert(j == i);
}

impl Ledger {
    /// Stores the configuration in place of any earlier one.
    pub fn store_config(&mut self, config: Config)
        requires
            old(self).wf(),
        ensures
            final(self).wf(),
            final(self).config == Some(config),
            final(self).collateral_infos == old(self).collateral_infos,
            final(self).bid_pools == old(self).bid_pools,
            final(self).bids == old(self).bids,
    {
        self.config = Some(config);
    }

    /// Registers a collateral type with its number of slots, in place of any
    /// earlier registration of it.
    pub fn store_collateral_info(&mut self, info: CollateralInfo)
        requires
            old(self).wf(),
        ensures
            final(self).wf(),
            final(self).config == old(self).config,
            final(self).bid_pools == old(self).bid_pools,
            final(self).bids == old(self).bids,
            forall|token: Seq<char>| #[trigger]
                final(self).collateral_info(token) == if token == info.collateral_token@ {
                    Some(info)
                } else {
                    old(self).collateral_info(token)
                },
    {
        let ghost before = *self;
        let mut at: usize = 0;
        while at < self.collateral_infos.len() && !(self.collateral_infos[at].collateral_token
            == info.collateral_token)
            invariant
                *self == before,
                at <= self.collateral_infos@.len(),
                forall|k: int| 0 <= k < at ==> !before.is_info_of(k, info.collateral_token@),
            decreases self.collateral_infos@.len() - at,
        {
            at += 1;
        }
        let replaces = at < self.collateral_infos.len();
        assert(replaces ==> before.is_info_of(at as int, info.collateral_token@));
        if replaces {
            self.collateral_infos.set(at, info);
        } else {
            self.collateral_infos.push(info);
        }
        proof {
            let after = *self;
            assert(after.collateral_infos@[at as int] == info);
            assert forall|i: int, j: int|
                0 <= i < j < after.collateral_infos@.len() implies after.collateral_infos@[i].collateral_token@
                != after.collateral_infos@[j].collateral_token@ by {
                if i != at {
                    assert(after.collateral_infos@[i] == before.collateral_infos@[i]);
                    assert(!replaces ==> !before.is_info_of(i, info.collateral_token@));
                }
                if j != at {
                    assert(after.collateral_infos@[j] == before.collateral_infos@[j]);
                    assert(!replaces ==> !before.is_info_of(j, info.collateral_token@));
                }
            }
            assert(after.wf());
            assert(after.is_info_of(at as int, info.collateral_token@));
            assert forall|token: Seq<char>| #[trigger]
                after.collateral_info(token) == if token == info.collateral_token@ {
                    Some(info)
                } else {
                    before.collateral_info(token)
                } by {
                if token == info.collateral_token@ {
                    lemma_info_is_found(after, at as int, token);
                } else if exists|i: int| before.is_info_of(i, token) {
                    let i = choose|i: int| before.is_info_of(i, token);
                    assert(after.is_info_of(i, token));
                    lemma_info_is_found(after, i, token);
                } else {
                    assert forall|i: int| !after.is_info_of(i, token) by {
                        if after.is_info_of(i, token) {
                            assert(before.is_info_of(i, token));
                        }
                    }
                }
            }
        }
    }

    /// Stores the pool of `collateral_token` at `slot`, in place of any
    /// earlier one.
    pub fn store_bid_pool(&mut self, entry: PoolEntry)
        requires
            old(self).wf(),
        ensures
            final(self).wf(),
            final(self).config == old(self).config,
            final(self).collateral_infos == old(self).collateral_infos,
            final(self).bids == old(self).bids,
            forall|token: Seq<char>, slot: u8| #[trigger]
                final(self).pool_at(token, slot) == if token == entry.collateral_token@ && slot
                    == entry.slot {
                    Some(entry.pool)
                } else {
                    old(self).pool_at(token, slot)
                },
    {
        let ghost before = *self;
        let mut at: usize = 0;
        while at < self.bid_pools.len() && !(self.bid_pools[at].slot >= entry.slot
            && self.bid_pools[at].collateral_token == entry.collateral_token)
            invariant
                *self == before,
                at <= self.bid_pools@.len(),
                forall|k: int|
                    0 <= k < at && before.bid_pools@[k].collateral_token@
                        == entry.collateral_token@ ==> before.bid_pools@[k].slot < entry.slot,
            decreases self.bid_pools@.len() - at,
        {
            at += 1;
        }
        let replaces = at < self.bid_pools.len() && self.bid_pools[at].slot == entry.slot;
        if replaces {
            self.bid_pools.set(at, entry);
        } else {
            self.bid_pools.insert(at, entry);
        }
        proof {
            let after = *self;
            assert(after.bid_pools@[at as int] == entry);
            assert(after.wf()) by {
                assert forall|i: int, j: int|
                    0 <= i < j < after.bid_pools@.len() && after.bid_pools@[i].collateral_token@
                        == after.bid_pools@[j].collateral_token@ implies after.bid_pools@[i].slot
                    < after.bid_pools@[j].slot by {
                    let from_i = if replaces || i < at {
                        i
                    } else {
                        i - 1
                    };
                    let from_j = if replaces || j < at {
                        j
                    } else {
                        j - 1
                    };
                    if i != at && j != at {
                        assert(after.bid_pools@[i] == before.bid_pools@[from_i]);
                        assert(after.bid_pools@[j] == before.bid_pools@[from_j]);
                    } else if i == at {
                        assert(after.bid_pools@[j] == before.bid_pools@[from_j]);
                        assert(at < before.bid_pools@.len());
                    } else {
                        assert(after.bid_pools@[i] == before.bid_pools@[from_i]);
                    }
                }
            }
            assert forall|token: Seq<char>, slot: u8| #[trigger]
                after.pool_at(token, slot) == if token == entry.collateral_token@ && slot
                    == entry.slot {
                    Some(entry.pool)
                } else {
                    before.pool_at(token, slot)
                } by {
                if token == entry.collateral_token@ && slot == entry.slot {
                    assert(after.is_pool_of(at as int, token, slot));
                    lemma_pool_is_found(after, at as int, token, slot);
                } else if exists|i: int| before.is_pool_of(i, token, slot) {
                    let i = choose|i: int| before.is_pool_of(i, token, slot);
                    let to = if replaces || i < at {
                        i
                    } else {
                        i + 1
                    };
                    assert(after.bid_pools@[to] == before.bid_pools@[i]);
                    assert(after.is_pool_of(to, token, slot));
                    lemma_pool_is_found(after, to, token, slot);
                } else {
                    assert forall|j: int| !after.is_pool_of(j, token, slot) by {
                        if after.is_pool_of(j, token, slot) {
                            let from = if replaces || j < at {
                                j
                            } else {
                                j - 1
                            };
                            assert(before.is_pool_of(from, token, slot));
                        }
                    }
                }
            }
        }
    }

    /// Stores a bid under its index, in place of any earlier bid with that
    /// index.
    pub fn store_bid(&mut self, bid: Bid)
        requires
            old(self).wf(),
        ensures
            final(self).wf(),
            final(self).config == old(self).config,
            final(self).collateral_infos == old(self).collateral_infos,
            final(self).bid_pools == old(self).bid_pools,
            forall|idx: u128| #[trigger]
                final(self).bid_at(idx) == if idx == bid.idx {
                    Some(bid)
                } else {
                    old(self).bid_at(idx)
                },
    {
        let ghost before = *self;
        let mut at: usize = 0;
        while at < self.bids.len() && self.bids[at].idx < bid.idx
            invariant
                *self == before,
                at <= self.bids@.len(),
                forall|k: int| 0 <= k < at ==> before.bids@[k].idx < bid.idx,
            decreases self.bids@.len() - at,
        {
            at += 1;
        }
        let replaces = at < self.bids.len() && self.bids[at].idx == bid.idx;
        if replaces {
            self.bids.set(at, bid);
        } else {
            self.bids.insert(at, bid);
        }
        proof {
            let after = *self;
            assert(after.bids@[at as int] == bid);
            assert(after.wf()) by {
                assert forall|i: int, j: int| 0 <= i < j < after.bids@.len() implies after.bids@[i].idx
                    < after.bids@[j].idx by {
                    let from_i = if replaces || i < at {
                        i
                    } else {
                        i - 1
                    };
                    let from_j = if replaces || j < at {
                        j
                    } else {
                        j - 1
                    };
                    if i != at && j != at {
                        assert(after.bids@[i] == before.bids@[from_i]);
                        assert(after.bids@[j] == before.bids@[from_j]);
                    } else if i == at {
                        assert(after.bids@[j] == before.bids@[from_j]);
                        assert(at < before.bids@.len());
                    } else {
                        assert(after.bids@[i] == before.bids@[from_i]);
                    }
                }
            }
            assert forall|idx: u128| #[trigger]
                after.bid_at(idx) == if idx == bid.idx {
                    Some(bid)
                } else {
                    before.bid_at(idx)
                } by {
                if idx == bid.idx {
                    assert(after.is_bid_of(at as int, idx));
                    lemma_bid_is_found(after, at as int, idx);
                } else if exists|i: int| before.is_bid_of(i, idx) {
                    let i = choose|i: int| before.is_bid_of(i, idx);
                    let to = if replaces || i < at {
                        i
                    } else {
                        i + 1
                    };
                    assert(after.bids@[to] == before.bids@[i]);
                    assert(after.is_bid_of(to, idx));
                    lemma_bid_is_found(after, to, idx);
                } else {
                    assert forall|j: int| !after.is_bid_of(j, idx) by {
                        if after.is_bid_of(j, idx) {
                            let from = if replaces || j < at {
                                j
                            } else {
                                j - 1
                            };
                            assert(before.is_bid_of(from, idx));
                        }
                    }
                }
            }
        }
    }
}

} // verus!
