//! The liquidation policy: how much stable value the standing bids can
//! raise for a loan's collateral, and from that how much of each collateral
//! is sold.
//!
//! Amounts are natural numbers; prices, rates and ratios are decimals given
//! by their atomics (the value times ten to the power 18). Every step rounds
//! down, and a step whose result is negative, divides by zero or exceeds 256
//! bits makes the whole computation fail.

use crate::error::Error;
use crate::math::{
    checked_difference, checked_ratio, checked_sum, decimal_unit, holds_atomics, holds_value,
    max_u256, Decimal256, Uint256,
};
use crate::state::{read_bid_pool, read_collateral_info, BidPool, Config, Ledger};
use vstd::prelude::*;

verus! {

/// Collateral holdings: pairs of asset and amount.
pub type TokensHuman = Vec<(String, Uint256)>;

/// Holdings as pairs of asset name and amount.
pub open spec fn tokens_view(tokens: Seq<(String, Uint256)>) -> Seq<(Seq<char>, nat)> {
    tokens.map_values(|t: (String, Uint256)| (t.0@, t.1@))
}

/// Prices by their atomics.
pub open spec fn prices_view(prices: Seq<Decimal256>) -> Seq<nat> {
    prices.map_values(|p: Decimal256| p@)
}

/// The premium slots `0..max_slot` of one collateral type, each with its pool
/// if it was ever funded.
pub open spec fn ladder_of(ledger: Ledger, token: Seq<char>, max_slot: nat) -> Seq<Option<BidPool>> {
    Seq::new(max_slot, |slot: int| ledger.pool_at(token, slot as u8))
}

/// What a pool would pay for all of `remaining` collateral: its value at
/// `price`, less the pool's premium.
pub open spec fn pool_bid_value(remaining: nat, price: nat, premium: nat) -> Option<nat> {
    match checked_ratio(remaining, price, decimal_unit()) {
        Some(value) => match checked_difference(decimal_unit(), premium) {
            Some(discount) => checked_ratio(value, discount, decimal_unit()),
            None => None,
        },
        None => None,
    }
}

/// The collateral that `available` stable value buys at `price` less the
/// pool's premium.
pub open spec fn pool_absorbs(available: nat, price: nat, premium: nat) -> Option<nat> {
    match checked_difference(decimal_unit(), premium) {
        Some(discount) => match checked_ratio(discount, price, decimal_unit()) {
            Some(unit_price) => checked_ratio(available, decimal_unit(), unit_price),
            None => None,
        },
        None => None,
    }
}

/// Offering `remaining` collateral to a pool that holds `available`: what
/// the pool pays, and the collateral left over for the next slot, or no
/// leftover where the pool covers all of it.
pub open spec fn pool_offer(remaining: nat, price: nat, available: nat, premium: nat) -> Option<
    (nat, Option<nat>),
> {
    match pool_bid_value(remaining, price, premium) {
        Some(bid_value) => if bid_value > available {
            match pool_absorbs(available, price, premium) {
                Some(absorbed) => match checked_difference(remaining, absorbed) {
                    Some(rest) => Some((available, Some(rest))),
                    None => None,
                },
                None => None,
            }
        } else {
            Some((bid_value, None))
        },
        None => None,
    }
}

/// Whether a slot takes part: its pool exists and holds something.
pub open spec fn is_funded(pool: Option<BidPool>) -> bool {
    match pool {
        Some(p) => p.total_bid_amount@ != 0,
        None => false,
    }
}

/// The running repay total after walking the ladder from `slot` upwards with
/// `remaining` collateral, starting from the total `repay`. Slots that are
/// not funded are passed over; the walk ends at the first pool that covers
/// what remains.
pub open spec fn ladder_repay(
    ladder: Seq<Option<BidPool>>,
    price: nat,
    slot: int,
    remaining: nat,
    repay: nat,
) -> Option<nat>
    decreases ladder.len() - slot,
{
    if slot < 0 || slot >= ladder.len() {
        Some(repay)
    } else if !is_funded(ladder[slot]) {
        ladder_repay(ladder, price, slot + 1, remaining, repay)
    } else {
        let pool = ladder[slot].unwrap();
        match pool_offer(remaining, price, pool.total_bid_amount@, pool.premium_rate@) {
            Some((paid, rest)) => match checked_sum(repay, paid) {
                Some(total) => match rest {
                    Some(left) => ladder_repay(ladder, price, slot + 1, left, total),
                    None => Some(total),
                },
                None => None,
            },
            None => None,
        }
    }
}

/// The running totals after collaterals `i..`: the value of the collateral
/// at oracle prices, and what the bids would pay for it before fees.
pub open spec fn collateral_tally(
    ledger: Ledger,
    collaterals: Seq<(Seq<char>, nat)>,
    prices: Seq<nat>,
    i: int,
    value: nat,
    repay: nat,
) -> Result<(nat, nat), Error>
    decreases collaterals.len() - i,
{
    if i < 0 || i >= collaterals.len() || i >= prices.len() {
        Ok((value, repay))
    } else {
        let token = collaterals[i].0;
        let amount = collaterals[i].1;
        match checked_ratio(amount, prices[i], decimal_unit()) {
            Some(worth) => match checked_sum(value, worth) {
                Some(value_after) => match ledger.collateral_info(token) {
                    Some(info) => match ladder_repay(
                        ladder_of(ledger, token, info.max_slot as nat),
                        prices[i],
                        0,
                        amount,
                        repay,
                    ) {
                        Some(repay_after) => collateral_tally(
                            ledger,
                            collaterals,
                            prices,
                            i + 1,
                            value_after,
                            repay_after,
                        ),
                        None => Err(Error::ArithmeticDomain),
                    },
                    None => Err(Error::NotFound),
                },
                None => Err(Error::ArithmeticDomain),
            },
            None => Err(Error::ArithmeticDomain),
        }
    }
}

/// The share of the bids' payment that reaches the loan: what is left after
/// the bid fee, and of that what is left after tax.
pub open spec fn fee_factor(bid_fee: nat, tax_rate: nat) -> Option<nat> {
    match checked_difference(decimal_unit(), bid_fee) {
        Some(after_fee) => match checked_difference(decimal_unit(), tax_rate) {
            Some(after_tax) => checked_ratio(after_fee, after_tax, decimal_unit()),
            None => None,
        },
        None => None,
    }
}

/// The decimal `a / b` of two integers.
pub open spec fn decimal_quotient(a: nat, b: nat) -> Option<nat> {
    match checked_ratio(a, decimal_unit(), 1) {
        Some(numerator) => match checked_ratio(b, decimal_unit(), 1) {
            Some(denominator) => checked_ratio(numerator, decimal_unit(), denominator),
            None => None,
        },
        None => None,
    }
}

/// The share of every collateral that is sold, at most 1.0. Under the
/// threshold the whole debt is set against what the bids repay; otherwise
/// only what exceeds the safe borrow amount is, on both sides.
pub open spec fn target_ratio(
    safe_ratio: nat,
    liquidation_threshold: nat,
    borrow_amount: nat,
    borrow_limit: nat,
    collaterals_value: nat,
    expected_repay: nat,
) -> Option<nat> {
    match checked_ratio(borrow_limit, safe_ratio, decimal_unit()) {
        Some(safe_borrow) => {
            let uncapped = if collaterals_value < liquidation_threshold {
                decimal_quotient(borrow_amount, expected_repay)
            } else {
                match checked_difference(borrow_amount, safe_borrow) {
                    Some(excess) => match checked_difference(expected_repay, safe_borrow) {
                        Some(room) => decimal_quotient(excess, room),
                        None => None,
                    },
                    None => None,
                }
            };
            match uncapped {
                Some(ratio) => Some(if decimal_unit() <= ratio { decimal_unit() } else { ratio }),
                None => None,
            }
        },
        None => None,
    }
}

/// One holding scaled by `ratio`, rounded down.
pub open spec fn scaled_entry(ratio: nat) -> spec_fn((Seq<char>, nat)) -> (Seq<char>, nat) {
    |c: (Seq<char>, nat)| (c.0, c.1 * ratio / decimal_unit())
}

/// Whether a holding has anything in it.
pub open spec fn is_nonzero() -> spec_fn((Seq<char>, nat)) -> bool {
    |c: (Seq<char>, nat)| c.1 > 0
}

/// Every holding scaled by `ratio`, those that come to nothing left out.
pub open spec fn scaled_plan(collaterals: Seq<(Seq<char>, nat)>, ratio: nat) -> Option<
    Seq<(Seq<char>, nat)>,
> {
    if forall|i: int| 0 <= i < collaterals.len() ==> (#[trigger] collaterals[i]).1 * ratio
        <= max_u256() {
        Some(collaterals.map_values(scaled_entry(ratio)).filter(is_nonzero()))
    } else {
        None
    }
}

/// What the bids repay after fee and tax for the given collateral, and the
/// collateral's value at oracle prices: `(value, expected_repay)`.
pub open spec fn expected_recovery(
    ledger: Ledger,
    bid_fee: nat,
    tax_rate: nat,
    collaterals: Seq<(Seq<char>, nat)>,
    prices: Seq<nat>,
) -> Result<(nat, nat), Error> {
    match fee_factor(bid_fee, tax_rate) {
        Some(factor) => match collateral_tally(ledger, collaterals, prices, 0, 0, 0) {
            Ok((value, gross)) => match checked_ratio(gross, factor, decimal_unit()) {
                Some(expected) => Ok((value, expected)),
                None => Err(Error::ArithmeticDomain),
            },
            Err(e) => Err(e),
        },
        None => Err(Error::ArithmeticDomain),
    }
}

/// How far a position is unwound.
pub enum Extent {
    /// The loan is within its limit: nothing is sold.
    Nothing,
    /// The bids cannot repay more than the debt: everything is sold.
    Everything,
    /// Every holding is sold in this share, a decimal of at most 1.0.
    Share(nat),
}

/// How far the position is unwound: not at all where the loan is within its
/// limit; wholly where the bids, after fee and tax, repay no more than the
/// debt; otherwise by the target ratio.
pub open spec fn liquidation_extent(
    ledger: Ledger,
    config: Config,
    tax_rate: nat,
    borrow_amount: nat,
    borrow_limit: nat,
    collaterals: Seq<(Seq<char>, nat)>,
    prices: Seq<nat>,
) -> Result<Extent, Error> {
    if borrow_amount <= borrow_limit {
        Ok(Extent::Nothing)
    } else {
        match expected_recovery(ledger, config.bid_fee@, tax_rate, collaterals, prices) {
            Ok((value, expected)) => if expected <= borrow_amount {
                Ok(Extent::Everything)
            } else {
                match target_ratio(
                    config.safe_ratio@,
                    config.liquidation_threshold@,
                    borrow_amount,
                    borrow_limit,
                    value,
                    expected,
                ) {
                    Some(ratio) => Ok(Extent::Share(ratio)),
                    None => Err(Error::ArithmeticDomain),
                }
            },
            Err(e) => Err(e),
        }
    }
}

/// What is sold of a holding of `amount`.
pub open spec fn seized(extent: Extent, amount: nat) -> nat {
    match extent {
        Extent::Nothing => 0,
        Extent::Everything => amount,
        Extent::Share(ratio) => amount * ratio / decimal_unit(),
    }
}

/// The holdings to sell: none, all of them as they are, or each scaled by
/// the share, those that come to nothing left out.
pub open spec fn plan_for(extent: Extent, collaterals: Seq<(Seq<char>, nat)>) -> Option<
    Seq<(Seq<char>, nat)>,
> {
    match extent {
        Extent::Nothing => Some(Seq::empty()),
        Extent::Everything => Some(collaterals),
        Extent::Share(ratio) => scaled_plan(collaterals, ratio),
    }
}

/// The collateral to sell for a loan of `borrow_amount` against a limit of
/// `borrow_limit`, or why there is no answer: `InvalidInput` where holdings
/// and prices differ in number, `NotFound` where a collateral type is not
/// registered, `ArithmeticDomain` where a step has no result.
pub open spec fn liquidation_plan(
    ledger: Ledger,
    config: Config,
    tax_rate: nat,
    borrow_amount: nat,
    borrow_limit: nat,
    collaterals: Seq<(Seq<char>, nat)>,
    prices: Seq<nat>,
) -> Result<Seq<(Seq<char>, nat)>, Error> {
    if collaterals.len() != prices.len() {
        Err(Error::InvalidInput)
    } else {
        match liquidation_extent(
            ledger,
            config,
            tax_rate,
            borrow_amount,
            borrow_limit,
            collaterals,
            prices,
        ) {
            Ok(extent) => match plan_for(extent, collaterals) {
                Some(plan) => Ok(plan),
                None => Err(Error::ArithmeticDomain),
            },
            Err(e) => Err(e),
        }
    }
}

/// Whether a loan is within its limit and needs no liquidation.
pub fn is_safely_collateralized(borrow_amount: Uint256, borrow_limit: Uint256) -> (r: bool)
    ensures
        r == (borrow_amount@ <= borrow_limit@),
{
    borrow_amount.le(&borrow_limit)
}

/// What a pool would pay for all of `remaining` collateral.
pub fn bid_value(remaining: Uint256, price: Decimal256, premium: Decimal256) -> (r: Option<
    Uint256,
>)
    ensures
        holds_value(r, pool_bid_value(remaining@, price@, premium@)),
{
    let value = match remaining.checked_mul_decimal(price) {
        Some(v) => v,
        None => { return None; },
    };
    let discount = match Decimal256::one().checked_sub(premium) {
        Some(d) => d,
        None => { return None; },
    };
    value.checked_mul_decimal(discount)
}

/// The collateral that `available` stable value buys from a pool.
pub fn absorbed_collateral(available: Uint256, price: Decimal256, premium: Decimal256) -> (r:
    Option<Uint256>)
    ensures
        holds_value(r, pool_absorbs(available@, price@, premium@)),
{
    let discount = match Decimal256::one().checked_sub(premium) {
        Some(d) => d,
        None => { return None; },
    };
    let unit_price = match discount.checked_mul(price) {
        Some(p) => p,
        None => { return None; },
    };
    available.checked_div_decimal(unit_price)
}

/// Whether the outcome of an offer holds the values `v`.
pub open spec fn holds_offer(r: Option<(Uint256, Option<Uint256>)>, v: Option<(nat, Option<nat>)>) -> bool {
    match r {
        Some((paid, rest)) => match v {
            Some((p, l)) => paid@ == p && holds_value(rest, l),
            None => false,
        },
        None => v.is_none(),
    }
}

/// Offers `remaining` collateral to one funded pool: what the pool pays and
/// what collateral is left for the next slot.
pub fn offer_to_pool(
    remaining: Uint256,
    price: Decimal256,
    available: Uint256,
    premium: Decimal256,
) -> (r: Option<(Uint256, Option<Uint256>)>)
    ensures
        holds_offer(r, pool_offer(remaining@, price@, available@, premium@)),
{
    let pool_repay_amount = match bid_value(remaining, price, premium) {
        Some(v) => v,
        None => { return None; },
    };
    if available.lt(&pool_repay_amount) {
        let absorbed = match absorbed_collateral(available, price, premium) {
            Some(a) => a,
            None => { return None; },
        };
        match remaining.checked_sub(absorbed) {
            Some(rest) => Some((available, Some(rest))),
            None => None,
        }
    } else {
        Some((pool_repay_amount, None))
    }
}

/// Walks the premium slots of one collateral type from the smallest
/// discount, and adds to `repay` what its pools pay for `amount`.
pub fn sweep_ladder(
    ledger: &Ledger,
    collateral_token: &String,
    price: Decimal256,
    max_slot: u8,
    amount: Uint256,
    repay: Uint256,
) -> (r: Option<Uint256>)
    requires
        ledger.wf(),
    ensures
        holds_value(
            r,
            ladder_repay(
                ladder_of(*ledger, collateral_token@, max_slot as nat),
                price@,
                0,
                amount@,
                repay@,
            ),
        ),
{
    let ghost ladder = ladder_of(*ledger, collateral_token@, max_slot as nat);
    let mut collateral_to_liquidate = amount;
    let mut total = repay;
    let mut slot: u8 = 0;
    while slot < max_slot
        invariant
            ledger.wf(),
            slot <= max_slot,
            ladder == ladder_of(*ledger, collateral_token@, max_slot as nat),
            ladder_repay(ladder, price@, slot as int, collateral_to_liquidate@, total@)
                == ladder_repay(ladder, price@, 0, amount@, repay@),
        decreases max_slot - slot,
    {
        assert(ladder[slot as int] == ledger.pool_at(collateral_token@, slot));
        match read_bid_pool(ledger, collateral_token, slot) {
            Ok(pool) => {
                if !pool.total_bid_amount.is_zero() {
                    match offer_to_pool(
                        collateral_to_liquidate,
                        price,
                        pool.total_bid_amount,
                        pool.premium_rate,
                    ) {
                        Some((paid, rest)) => {
                            match total.checked_add(paid) {
                                Some(t) => {
                                    total = t;
                                },
                                None => {
                                    return None;
                                },
                            }
                            match rest {
                                Some(left) => {
                                    collateral_to_liquidate = left;
                                },
                                None => {
                                    return Some(total);
                                },
                            }
                        },
                        None => {
                            return None;
                        },
                    }
                }
            },
            Err(_) => {},
        }
        slot += 1;
    }
    Some(total)
}

/// Whether the outcome of a tally holds the values `v`.
pub open spec fn holds_tally(r: Result<(Uint256, Uint256), Error>, v: Result<(nat, nat), Error>) -> bool {
    match r {
        Ok((value, repay)) => v == Ok::<(nat, nat), Error>((value@, repay@)),
        Err(e) => v == Err::<(nat, nat), Error>(e),
    }
}

/// Adds up, over all collaterals that have a price, their value at oracle
/// prices and what the bids would pay for them before fees.
pub fn tally_collaterals(
    ledger: &Ledger,
    collaterals: &TokensHuman,
    collateral_prices: &Vec<Decimal256>,
) -> (r: Result<(Uint256, Uint256), Error>)
    requires
        ledger.wf(),
    ensures
        holds_tally(
            r,
            collateral_tally(
                *ledger,
                tokens_view(collaterals@),
                prices_view(collateral_prices@),
                0,
                0,
                0,
            ),
        ),
{
    let ghost held = tokens_view(collaterals@);
    let ghost quoted = prices_view(collateral_prices@);
    let mut collaterals_value = Uint256::zero();
    let mut expected_repay_amount = Uint256::zero();
    let mut i: usize = 0;
    while i < collaterals.len() && i < collateral_prices.len()
        invariant
            ledger.wf(),
            i <= collaterals@.len(),
            i <= collateral_prices@.len(),
            held == tokens_view(collaterals@),
            quoted == prices_view(collateral_prices@),
            collateral_tally(
                *ledger,
                held,
                quoted,
                i as int,
                collaterals_value@,
                expected_repay_amount@,
            ) == collateral_tally(*ledger, held, quoted, 0, 0, 0),
        decreases collaterals@.len() - i,
    {
        let amount = collaterals[i].1;
        let price = collateral_prices[i];
        assert(held[i as int] == (collaterals@[i as int].0@, amount@));
        assert(quoted[i as int] == price@);
        let collateral_value = match amount.checked_mul_decimal(price) {
            Some(v) => v,
            None => {
                return Err(Error::ArithmeticDomain);
            },
        };
        collaterals_value = match collaterals_value.checked_add(collateral_value) {
            Some(v) => v,
            None => {
                return Err(Error::ArithmeticDomain);
            },
        };
        let collateral_info = match read_collateral_info(ledger, &collaterals[i].0) {
            Ok(info) => info,
            Err(e) => {
                return Err(e);
            },
        };
        expected_repay_amount = match sweep_ladder(
            ledger,
            &collaterals[i].0,
            price,
            collateral_info.max_slot,
            amount,
            expected_repay_amount,
        ) {
            Some(v) => v,
            None => {
                return Err(Error::ArithmeticDomain);
            },
        };
        i += 1;
    }
    Ok((collaterals_value, expected_repay_amount))
}

/// The share of the bids' payment that reaches the loan, after bid fee and
/// tax.
pub fn base_fee_deductor(bid_fee: Decimal256, tax_rate: Decimal256) -> (r: Option<Decimal256>)
    ensures
        holds_atomics(r, fee_factor(bid_fee@, tax_rate@)),
{
    let after_fee = match Decimal256::one().checked_sub(bid_fee) {
        Some(d) => d,
        None => { return None; },
    };
    let after_tax = match Decimal256::one().checked_sub(tax_rate) {
        Some(d) => d,
        None => { return None; },
    };
    after_fee.checked_mul(after_tax)
}

/// The decimal `a / b` of two integers.
pub fn ratio_of(a: Uint256, b: Uint256) -> (r: Option<Decimal256>)
    ensures
        holds_atomics(r, decimal_quotient(a@, b@)),
{
    let numerator = match Decimal256::checked_from_uint256(a) {
        Some(d) => d,
        None => { return None; },
    };
    let denominator = match Decimal256::checked_from_uint256(b) {
        Some(d) => d,
        None => { return None; },
    };
    numerator.checked_div(denominator)
}

/// The share of every collateral that is sold, at most 1.0.
pub fn liquidation_ratio(
    config: &Config,
    borrow_amount: Uint256,
    borrow_limit: Uint256,
    collaterals_value: Uint256,
    expected_repay_amount: Uint256,
) -> (r: Option<Decimal256>)
    ensures
        holds_atomics(
            r,
            target_ratio(
                config.safe_ratio@,
                config.liquidation_threshold@,
                borrow_amount@,
                borrow_limit@,
                collaterals_value@,
                expected_repay_amount@,
            ),
        ),
{
    let safe_borrow_amount = match borrow_limit.checked_mul_decimal(config.safe_ratio) {
        Some(v) => v,
        None => { return None; },
    };
    let uncapped = if collaterals_value.lt(&config.liquidation_threshold) {
        ratio_of(borrow_amount, expected_repay_amount)
    } else {
        let excess = match borrow_amount.checked_sub(safe_borrow_amount) {
            Some(v) => v,
            None => { return None; },
        };
        let room = match expected_repay_amount.checked_sub(safe_borrow_amount) {
            Some(v) => v,
            None => { return None; },
        };
        ratio_of(excess, room)
    };
    match uncapped {
        Some(ratio) => Some(Decimal256::one().min(ratio)),
        None => None,
    }
}

/// Scales every holding by `ratio`, rounding down, and leaves out those
/// that come to nothing.
pub fn scale_collaterals(collaterals: &TokensHuman, ratio: Decimal256) -> (r: Option<TokensHuman>)
    ensures
        match r {
            Some(plan) => scaled_plan(tokens_view(collaterals@), ratio@) == Some(
                tokens_view(plan@),
            ),
            None => scaled_plan(tokens_view(collaterals@), ratio@).is_none(),
        },
{
    let ghost held = tokens_view(collaterals@);
    let mut plan: TokensHuman = Vec::new();
    let mut i: usize = 0;
    assert(held.take(0).map_values(scaled_entry(ratio@)) =~= Seq::empty());
    assert(tokens_view(plan@) =~= Seq::empty());
    proof {
        reveal(Seq::filter);
    }
    while i < collaterals.len()
        invariant
            i <= collaterals@.len(),
            held == tokens_view(collaterals@),
            forall|k: int| 0 <= k < i ==> (#[trigger] held[k]).1 * ratio@ <= max_u256(),
            tokens_view(plan@) == held.take(i as int).map_values(scaled_entry(ratio@)).filter(
                is_nonzero(),
            ),
        decreases collaterals@.len() - i,
    {
        let amount = collaterals[i].1;
        assert(held[i as int] == (collaterals@[i as int].0@, amount@));
        let scaled = match amount.checked_mul_decimal(ratio) {
            Some(v) => v,
            None => {
                return None;
            },
        };
        let ghost before = held.take(i as int).map_values(scaled_entry(ratio@));
        let ghost entry = scaled_entry(ratio@)(held[i as int]);
        proof {
            assert(held.take(i + 1).map_values(scaled_entry(ratio@)) =~= before.push(entry));
            before.lemma_filter_push(entry, is_nonzero());
        }
        if !scaled.is_zero() {
            let ghost earlier = plan@;
            let asset = collaterals[i].0.clone();
            plan.push((asset, scaled));
            assert(tokens_view(plan@) =~= tokens_view(earlier).push(entry));
        }
        i += 1;
    }
    assert(held.take(i as int) =~= held);
    Some(plan)
}

/// Whether the outcome of a computation holds the plan `v`.
pub open spec fn holds_plan(r: Result<TokensHuman, Error>, v: Result<Seq<(Seq<char>, nat)>, Error>) -> bool {
    match r {
        Ok(plan) => v == Ok::<Seq<(Seq<char>, nat)>, Error>(tokens_view(plan@)),
        Err(e) => v == Err::<Seq<(Seq<char>, nat)>, Error>(e),
    }
}

/// A copy of the holdings.
pub fn copy_tokens(tokens: &TokensHuman) -> (r: TokensHuman)
    ensures
        tokens_view(r@) == tokens_view(tokens@),
        r@.len() == tokens@.len(),
{
    let mut out: TokensHuman = Vec::new();
    let mut i: usize = 0;
    while i < tokens.len()
        invariant
            i <= tokens@.len(),
            out@.len() == i,
            forall|k: int| 0 <= k < i ==> out@[k].0@ == tokens@[k].0@ && out@[k].1 == tokens@[k].1,
        decreases tokens@.len() - i,
    {
        let asset = tokens[i].0.clone();
        out.push((asset, tokens[i].1));
        i += 1;
    }
    assert(tokens_view(out@) =~= tokens_view(tokens@));
    out
}

/// Computes the collateral to sell for a loan of `borrow_amount` against a
/// limit of `borrow_limit`, given the collateral held, its oracle prices,
/// the tax rate on transfers of the stable asset, and the bids in `ledger`.
///
/// Fails with `InvalidInput` where holdings and prices differ in number,
/// with `NotFound` where a collateral type is not registered, and with
/// `ArithmeticDomain` where a step of the computation has no result.
pub fn compute_liquidation(
    ledger: &Ledger,
    config: &Config,
    tax_rate: Decimal256,
    borrow_amount: Uint256,
    borrow_limit: Uint256,
    collaterals: &TokensHuman,
    collateral_prices: &Vec<Decimal256>,
) -> (r: Result<TokensHuman, Error>)
    requires
        ledger.wf(),
    ensures
        holds_plan(
            r,
            liquidation_plan(
                *ledger,
                *config,
                tax_rate@,
                borrow_amount@,
                borrow_limit@,
                tokens_view(collaterals@),
                prices_view(collateral_prices@),
            ),
        ),
        collaterals@.len() == collateral_prices@.len() && borrow_amount@ <= borrow_limit@ ==> (r
            matches Ok(plan) && plan@.len() == 0),
{
    if collaterals.len() != collateral_prices.len() {
        return Err(Error::InvalidInput);
    }
    if is_safely_collateralized(borrow_amount, borrow_limit) {
        let nothing: TokensHuman = Vec::new();
        assert(tokens_view(nothing@) =~= Seq::empty());
        return Ok(nothing);
    }
    let base_fee_deductor = match base_fee_deductor(config.bid_fee, tax_rate) {
        Some(d) => d,
        None => {
            return Err(Error::ArithmeticDomain);
        },
    };
    let (collaterals_value, gross_repay_amount) = match tally_collaterals(
        ledger,
        collaterals,
        collateral_prices,
    ) {
        Ok(totals) => totals,
        Err(e) => {
            return Err(e);
        },
    };
    let expected_repay_amount = match gross_repay_amount.checked_mul_decimal(base_fee_deductor) {
        Some(v) => v,
        None => {
            return Err(Error::ArithmeticDomain);
        },
    };
    if expected_repay_amount.le(&borrow_amount) {
        return Ok(copy_tokens(collaterals));
    }
    let liquidation_ratio = match liquidation_ratio(
        config,
        borrow_amount,
        borrow_limit,
        collaterals_value,
        expected_repay_amount,
    ) {
        Some(ratio) => ratio,
        None => {
            return Err(Error::ArithmeticDomain);
        },
    };
    match scale_collaterals(collaterals, liquidation_ratio) {
        Some(plan) => Ok(plan),
        None => Err(Error::ArithmeticDomain),
    }
}

} // verus!
