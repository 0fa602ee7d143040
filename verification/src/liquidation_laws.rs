//! What holds of every liquidation plan.

use crate::error::Error;
use crate::liquidation::{
    collateral_tally, decimal_quotient, expected_recovery, is_funded, is_nonzero, ladder_of,
    ladder_repay, liquidation_extent, liquidation_plan, plan_for, pool_bid_value, scaled_entry,
    scaled_plan, seized, target_ratio, Extent,
};
use crate::math::{checked_difference, checked_ratio, checked_sum, decimal_unit};
use crate::state::{BidPool, Config, Ledger};
use vstd::arithmetic::div_mod::{lemma_div_is_ordered, lemma_div_multiples_vanish};
use vstd::arithmetic::mul::lemma_mul_inequality;
use vstd::prelude::*;

verus! {

/// A loan within its limit is left alone, whatever collateral is held and
/// whatever the bid pools hold.
pub proof fn lemma_safe_loan_sells_nothing(
    ledger: Ledger,
    config: Config,
    tax_rate: nat,
    borrow_amount: nat,
    borrow_limit: nat,
    collaterals: Seq<(Seq<char>, nat)>,
    prices: Seq<nat>,
)
    requires
        borrow_amount <= borrow_limit,
        collaterals.len() == prices.len(),
    ensures
        liquidation_plan(
            ledger,
            config,
            tax_rate,
            borrow_amount,
            borrow_limit,
            collaterals,
            prices,
        ) == Ok::<Seq<(Seq<char>, nat)>, Error>(Seq::empty()),
{
}

/// Scaling by a share of at most 1.0 never yields more than was held.
pub proof fn lemma_share_is_within_amount(amount: nat, ratio: nat)
    requires
        ratio <= decimal_unit(),
    ensures
        amount * ratio / decimal_unit() <= amount,
{
    lemma_mul_inequality(ratio as int, decimal_unit() as int, amount as int);
    assert(amount * ratio == ratio * amount && amount * decimal_unit() == decimal_unit() * amount)
        by (nonlinear_arith);
    lemma_div_is_ordered(
        (amount * ratio) as int,
        (amount * decimal_unit()) as int,
        decimal_unit() as int,
    );
    lemma_div_multiples_vanish(amount as int, decimal_unit() as int);
}

/// A larger share never yields less of a holding.
pub proof fn lemma_share_is_monotonic(amount: nat, smaller: nat, larger: nat)
    requires
        smaller <= larger,
    ensures
        amount * smaller / decimal_unit() <= amount * larger / decimal_unit(),
{
    lemma_mul_inequality(smaller as int, larger as int, amount as int);
    assert(amount * smaller == smaller * amount && amount * larger == larger * amount)
        by (nonlinear_arith);
    lemma_div_is_ordered(
        (amount * smaller) as int,
        (amount * larger) as int,
        decimal_unit() as int,
    );
}

/// The target ratio never exceeds 1.0.
pub proof fn lemma_target_ratio_is_capped(
    safe_ratio: nat,
    liquidation_threshold: nat,
    borrow_amount: nat,
    borrow_limit: nat,
    collaterals_value: nat,
    expected_repay: nat,
)
    ensures
        match target_ratio(
            safe_ratio,
            liquidation_threshold,
            borrow_amount,
            borrow_limit,
            collaterals_value,
            expected_repay,
        ) {
            Some(ratio) => ratio <= decimal_unit(),
            None => true,
        },
{
}

/// Whether `entry` is what is sold of `holding`: the same asset, in the
/// amount that `extent` takes of the holding.
pub open spec fn is_sold_from(entry: (Seq<char>, nat), holding: (Seq<char>, nat), extent: Extent) -> bool {
    entry.0 == holding.0 && entry.1 == seized(extent, holding.1)
}

/// Whether `entry` is what is sold of one of the holdings, and no more than
/// that holding.
pub open spec fn has_source(
    entry: (Seq<char>, nat),
    collaterals: Seq<(Seq<char>, nat)>,
    extent: Extent,
) -> bool {
    exists|i: int|
        0 <= i < collaterals.len() && #[trigger] is_sold_from(entry, collaterals[i], extent)
            && entry.1 <= collaterals[i].1
}

/// Every entry of a plan is one of the holdings, sold to the one extent that
/// the plan was made for, and never in a larger amount than is held; a share
/// is at most 1.0. And every holding of which something is sold has its
/// entry in the plan.
pub proof fn lemma_plan_within_holdings(
    ledger: Ledger,
    config: Config,
    tax_rate: nat,
    borrow_amount: nat,
    borrow_limit: nat,
    collaterals: Seq<(Seq<char>, nat)>,
    prices: Seq<nat>,
)
    requires
        liquidation_plan(
            ledger,
            config,
            tax_rate,
            borrow_amount,
            borrow_limit,
            collaterals,
            prices,
        ) is Ok,
    ensures
        ({
            let extent = liquidation_extent(
                ledger,
                config,
                tax_rate,
                borrow_amount,
                borrow_limit,
                collaterals,
                prices,
            )->Ok_0;
            let plan = liquidation_plan(
                ledger,
                config,
                tax_rate,
                borrow_amount,
                borrow_limit,
                collaterals,
                prices,
            )->Ok_0;
            &&& plan_for(extent, collaterals) == Some(plan)
            &&& plan.len() <= collaterals.len()
            &&& extent matches Extent::Share(ratio) ==> ratio <= decimal_unit()
            &&& forall|j: int|
                0 <= j < plan.len() ==> has_source(#[trigger] plan[j], collaterals, extent)
            &&& forall|i: int|
                0 <= i < collaterals.len() && seized(extent, collaterals[i].1) > 0
                    ==> #[trigger] plan.contains(
                    (collaterals[i].0, seized(extent, collaterals[i].1)),
                )
        }),
{
    let extent = liquidation_extent(
        ledger,
        config,
        tax_rate,
        borrow_amount,
        borrow_limit,
        collaterals,
        prices,
    )->Ok_0;
    let plan = liquidation_plan(
        ledger,
        config,
        tax_rate,
        borrow_amount,
        borrow_limit,
        collaterals,
        prices,
    )->Ok_0;
    match extent {
        Extent::Nothing => {},
        Extent::Everything => {
            assert forall|j: int| 0 <= j < plan.len() implies has_source(
                #[trigger] plan[j],
                collaterals,
                extent,
            ) by {
                assert(is_sold_from(plan[j], collaterals[j], extent));
            }
            assert forall|i: int|
                0 <= i < collaterals.len() && seized(extent, collaterals[i].1)
                    > 0 implies #[trigger] plan.contains(
                (collaterals[i].0, seized(extent, collaterals[i].1)),
            ) by {
                assert(plan[i] == (collaterals[i].0, seized(extent, collaterals[i].1)));
            }
        },
        Extent::Share(ratio) => {
            lemma_scaled_plan_within_holdings(collaterals, ratio);
        },
    }
}

/// Of a plan made by scaling: every entry is a scaled holding and at most
/// the holding, and every holding that scales to something has its entry.
pub proof fn lemma_scaled_plan_within_holdings(collaterals: Seq<(Seq<char>, nat)>, ratio: nat)
    requires
        scaled_plan(collaterals, ratio) is Some,
        ratio <= decimal_unit(),
    ensures
        ({
            let plan = scaled_plan(collaterals, ratio)->Some_0;
            let extent = Extent::Share(ratio);
            &&& plan.len() <= collaterals.len()
            &&& forall|j: int|
                0 <= j < plan.len() ==> has_source(#[trigger] plan[j], collaterals, extent)
            &&& forall|i: int|
                0 <= i < collaterals.len() && seized(extent, collaterals[i].1) > 0
                    ==> #[trigger] plan.contains(
                    (collaterals[i].0, seized(extent, collaterals[i].1)),
                )
        }),
{
    let scaled = collaterals.map_values(scaled_entry(ratio));
    let plan = scaled.filter(is_nonzero());
    let extent = Extent::Share(ratio);
    scaled.lemma_filter_len(is_nonzero());
    assert forall|j: int| 0 <= j < plan.len() implies has_source(
        #[trigger] plan[j],
        collaterals,
        extent,
    ) by {
        assert(plan.contains(plan[j]));
        scaled.lemma_filter_contains_rev(is_nonzero(), plan[j]);
        let i = choose|i: int| 0 <= i < scaled.len() && scaled[i] == plan[j];
        lemma_share_is_within_amount(collaterals[i].1, ratio);
        assert(is_sold_from(plan[j], collaterals[i], extent));
    }
    assert forall|i: int|
        0 <= i < collaterals.len() && seized(extent, collaterals[i].1)
            > 0 implies #[trigger] plan.contains(
        (collaterals[i].0, seized(extent, collaterals[i].1)),
    ) by {
        assert(scaled[i] == (collaterals[i].0, seized(extent, collaterals[i].1)));
        scaled.lemma_filter_contains(is_nonzero(), i);
    }
}

/// The decimal quotient grows with its numerator.
pub proof fn lemma_quotient_is_monotonic(smaller: nat, larger: nat, divisor: nat)
    requires
        smaller <= larger,
        decimal_quotient(smaller, divisor) is Some,
        decimal_quotient(larger, divisor) is Some,
    ensures
        decimal_quotient(smaller, divisor)->Some_0 <= decimal_quotient(larger, divisor)->Some_0,
{
    let unit = decimal_unit();
    lemma_mul_inequality(smaller as int, larger as int, unit as int);
    lemma_div_is_ordered((smaller * unit) as int, (larger * unit) as int, 1);
    let a = smaller * unit / 1;
    let b = larger * unit / 1;
    lemma_mul_inequality(a as int, b as int, unit as int);
    lemma_div_is_ordered((a * unit) as int, (b * unit) as int, (divisor * unit / 1) as int);
}

/// With everything else fixed, a larger debt never lowers the target ratio.
pub proof fn lemma_target_ratio_is_monotonic(
    safe_ratio: nat,
    liquidation_threshold: nat,
    smaller_debt: nat,
    larger_debt: nat,
    borrow_limit: nat,
    collaterals_value: nat,
    expected_repay: nat,
)
    requires
        smaller_debt <= larger_debt,
        target_ratio(
            safe_ratio,
            liquidation_threshold,
            smaller_debt,
            borrow_limit,
            collaterals_value,
            expected_repay,
        ) is Some,
        target_ratio(
            safe_ratio,
            liquidation_threshold,
            larger_debt,
            borrow_limit,
            collaterals_value,
            expected_repay,
        ) is Some,
    ensures
        target_ratio(
            safe_ratio,
            liquidation_threshold,
            smaller_debt,
            borrow_limit,
            collaterals_value,
            expected_repay,
        )->Some_0 <= target_ratio(
            safe_ratio,
            liquidation_threshold,
            larger_debt,
            borrow_limit,
            collaterals_value,
            expected_repay,
        )->Some_0,
{
    let safe_borrow = checked_ratio(borrow_limit, safe_ratio, decimal_unit())->Some_0;
    if collaterals_value < liquidation_threshold {
        lemma_quotient_is_monotonic(smaller_debt, larger_debt, expected_repay);
    } else {
        let room = checked_difference(expected_repay, safe_borrow)->Some_0;
        lemma_quotient_is_monotonic(
            checked_difference(smaller_debt, safe_borrow)->Some_0,
            checked_difference(larger_debt, safe_borrow)->Some_0,
            room,
        );
    }
}

/// With everything else fixed, a larger debt never lowers what is sold of
/// any holding.
pub proof fn lemma_plan_grows_with_debt(
    ledger: Ledger,
    config: Config,
    tax_rate: nat,
    smaller_debt: nat,
    larger_debt: nat,
    borrow_limit: nat,
    collaterals: Seq<(Seq<char>, nat)>,
    prices: Seq<nat>,
    amount: nat,
)
    requires
        smaller_debt <= larger_debt,
        liquidation_extent(
            ledger,
            config,
            tax_rate,
            smaller_debt,
            borrow_limit,
            collaterals,
            prices,
        ) is Ok,
        liquidation_extent(
            ledger,
            config,
            tax_rate,
            larger_debt,
            borrow_limit,
            collaterals,
            prices,
        ) is Ok,
    ensures
        seized(
            liquidation_extent(
                ledger,
                config,
                tax_rate,
                smaller_debt,
                borrow_limit,
                collaterals,
                prices,
            )->Ok_0,
            amount,
        ) <= seized(
            liquidation_extent(
                ledger,
                config,
                tax_rate,
                larger_debt,
                borrow_limit,
                collaterals,
                prices,
            )->Ok_0,
            amount,
        ),
{
    let before = liquidation_extent(
        ledger,
        config,
        tax_rate,
        smaller_debt,
        borrow_limit,
        collaterals,
        prices,
    )->Ok_0;
    let after = liquidation_extent(
        ledger,
        config,
        tax_rate,
        larger_debt,
        borrow_limit,
        collaterals,
        prices,
    )->Ok_0;
    if smaller_debt > borrow_limit {
        let recovery = expected_recovery(ledger, config.bid_fee@, tax_rate, collaterals, prices);
        let value = recovery->Ok_0.0;
        let expected = recovery->Ok_0.1;
        if expected <= smaller_debt {
        } else if expected <= larger_debt {
            lemma_target_ratio_is_capped(
                config.safe_ratio@,
                config.liquidation_threshold@,
                smaller_debt,
                borrow_limit,
                value,
                expected,
            );
            lemma_share_is_within_amount(amount, before->Share_0);
        } else {
            lemma_target_ratio_is_monotonic(
                config.safe_ratio@,
                config.liquidation_threshold@,
                smaller_debt,
                larger_debt,
                borrow_limit,
                value,
                expected,
            );
            lemma_share_is_monotonic(amount, before->Share_0, after->Share_0);
        }
    }
}

/// The value at oracle prices of what is sold of holdings `i..`: the sum of
/// amount sold times price. A holding that a plan leaves out counts as
/// nothing sold.
pub open spec fn liquidated_value(
    extent: Extent,
    collaterals: Seq<(Seq<char>, nat)>,
    prices: Seq<nat>,
    i: int,
) -> nat
    decreases collaterals.len() - i,
{
    if i < 0 || i >= collaterals.len() || i >= prices.len() {
        0
    } else {
        seized(extent, collaterals[i].1) * prices[i] + liquidated_value(
            extent,
            collaterals,
            prices,
            i + 1,
        )
    }
}

/// With everything else fixed, a larger debt never lowers the total value of
/// what is sold.
pub proof fn lemma_liquidated_value_grows_with_debt(
    ledger: Ledger,
    config: Config,
    tax_rate: nat,
    smaller_debt: nat,
    larger_debt: nat,
    borrow_limit: nat,
    collaterals: Seq<(Seq<char>, nat)>,
    prices: Seq<nat>,
    i: int,
)
    requires
        smaller_debt <= larger_debt,
        liquidation_extent(
            ledger,
            config,
            tax_rate,
            smaller_debt,
            borrow_limit,
            collaterals,
            prices,
        ) is Ok,
        liquidation_extent(
            ledger,
            config,
            tax_rate,
            larger_debt,
            borrow_limit,
            collaterals,
            prices,
        ) is Ok,
    ensures
        liquidated_value(
            liquidation_extent(
                ledger,
                config,
                tax_rate,
                smaller_debt,
                borrow_limit,
                collaterals,
                prices,
            )->Ok_0,
            collaterals,
            prices,
            i,
        ) <= liquidated_value(
            liquidation_extent(
                ledger,
                config,
                tax_rate,
                larger_debt,
                borrow_limit,
                collaterals,
                prices,
            )->Ok_0,
            collaterals,
            prices,
            i,
        ),
    decreases collaterals.len() - i,
{
    if !(i < 0 || i >= collaterals.len() || i >= prices.len()) {
        let before = liquidation_extent(
            ledger,
            config,
            tax_rate,
            smaller_debt,
            borrow_limit,
            collaterals,
            prices,
        )->Ok_0;
        let after = liquidation_extent(
            ledger,
            config,
            tax_rate,
            larger_debt,
            borrow_limit,
            collaterals,
            prices,
        )->Ok_0;
        lemma_plan_grows_with_debt(
            ledger,
            config,
            tax_rate,
            smaller_debt,
            larger_debt,
            borrow_limit,
            collaterals,
            prices,
            collaterals[i].1,
        );
        lemma_mul_inequality(
            seized(before, collaterals[i].1) as int,
            seized(after, collaterals[i].1) as int,
            prices[i] as int,
        );
        lemma_liquidated_value_grows_with_debt(
            ledger,
            config,
            tax_rate,
            smaller_debt,
            larger_debt,
            borrow_limit,
            collaterals,
            prices,
            i + 1,
        );
    }
}

/// A pool that covers what remains ends the walk: the total is what was
/// repaid so far and what that pool pays, whatever the slots behind it hold.
pub proof fn lemma_covering_pool_ends_walk(
    ladder: Seq<Option<BidPool>>,
    other: Seq<Option<BidPool>>,
    price: nat,
    slot: int,
    remaining: nat,
    repay: nat,
)
    requires
        0 <= slot < ladder.len(),
        slot < other.len(),
        ladder[slot] == other[slot],
        is_funded(ladder[slot]),
        pool_bid_value(remaining, price, ladder[slot]->Some_0.premium_rate@) is Some,
        pool_bid_value(remaining, price, ladder[slot]->Some_0.premium_rate@)->Some_0
            <= ladder[slot]->Some_0.total_bid_amount@,
    ensures
        ladder_repay(ladder, price, slot, remaining, repay) == checked_sum(
            repay,
            pool_bid_value(remaining, price, ladder[slot]->Some_0.premium_rate@)->Some_0,
        ),
        ladder_repay(ladder, price, slot, remaining, repay) == ladder_repay(
            other,
            price,
            slot,
            remaining,
            repay,
        ),
{
}

/// A ladder on which no slot is funded adds nothing to the repay total.
pub proof fn lemma_unfunded_ladder_repays_nothing(
    ladder: Seq<Option<BidPool>>,
    price: nat,
    slot: int,
    remaining: nat,
    repay: nat,
)
    requires
        forall|s: int| 0 <= s < ladder.len() ==> !is_funded(#[trigger] ladder[s]),
    ensures
        ladder_repay(ladder, price, slot, remaining, repay) == Some(repay),
    decreases ladder.len() - slot,
{
    if !(slot < 0 || slot >= ladder.len()) {
        lemma_unfunded_ladder_repays_nothing(ladder, price, slot + 1, remaining, repay);
    }
}

/// Where no pool of the ledger is funded, a tally that succeeds leaves the
/// repay total as it was.
pub proof fn lemma_unfunded_ledger_tallies_nothing(
    ledger: Ledger,
    collaterals: Seq<(Seq<char>, nat)>,
    prices: Seq<nat>,
    i: int,
    value: nat,
    repay: nat,
)
    requires
        forall|token: Seq<char>, slot: u8| !is_funded(#[trigger] ledger.pool_at(token, slot)),
    ensures
        match collateral_tally(ledger, collaterals, prices, i, value, repay) {
            Ok((_, total)) => total == repay,
            Err(_) => true,
        },
    decreases collaterals.len() - i,
{
    if !(i < 0 || i >= collaterals.len() || i >= prices.len()) {
        let token = collaterals[i].0;
        let amount = collaterals[i].1;
        match checked_ratio(amount, prices[i], decimal_unit()) {
            Some(worth) => {
                match ledger.collateral_info(token) {
                    Some(info) => {
                        let ladder = ladder_of(ledger, token, info.max_slot as nat);
                        lemma_unfunded_ladder_repays_nothing(ladder, prices[i], 0, amount, repay);
                        lemma_unfunded_ledger_tallies_nothing(
                            ledger,
                            collaterals,
                            prices,
                            i + 1,
                            value + worth,
                            repay,
                        );
                    },
                    None => {},
                }
            },
            None => {},
        }
    }
}

/// Where no pool of the ledger is funded, the bids repay nothing, and a loan
/// over its limit has all of its collateral sold, each holding as it is.
pub proof fn lemma_no_liquidity_sells_everything(
    ledger: Ledger,
    config: Config,
    tax_rate: nat,
    borrow_amount: nat,
    borrow_limit: nat,
    collaterals: Seq<(Seq<char>, nat)>,
    prices: Seq<nat>,
)
    requires
        forall|token: Seq<char>, slot: u8| !is_funded(#[trigger] ledger.pool_at(token, slot)),
        borrow_amount > borrow_limit,
        liquidation_plan(
            ledger,
            config,
            tax_rate,
            borrow_amount,
            borrow_limit,
            collaterals,
            prices,
        ) is Ok,
    ensures
        expected_recovery(ledger, config.bid_fee@, tax_rate, collaterals, prices) is Ok,
        expected_recovery(ledger, config.bid_fee@, tax_rate, collaterals, prices)->Ok_0.1 == 0,
        liquidation_plan(
            ledger,
            config,
            tax_rate,
            borrow_amount,
            borrow_limit,
            collaterals,
            prices,
        ) == Ok::<Seq<(Seq<char>, nat)>, Error>(collaterals),
{
    lemma_unfunded_ledger_tallies_nothing(ledger, collaterals, prices, 0, 0, 0);
}

/// Whether two ledgers register the same slot counts and hold the same
/// pools.
pub open spec fn same_pools(a: Ledger, b: Ledger) -> bool {
    &&& forall|token: Seq<char>|
        match (#[trigger] a.collateral_info(token), b.collateral_info(token)) {
            (Some(x), Some(y)) => x.max_slot == y.max_slot,
            (None, None) => true,
            _ => false,
        }
    &&& forall|token: Seq<char>, slot: u8| #[trigger]
        a.pool_at(token, slot) == b.pool_at(token, slot)
}

/// The tally reads nothing of a ledger but its slot counts and pools.
pub proof fn lemma_tally_reads_pools_only(
    a: Ledger,
    b: Ledger,
    collaterals: Seq<(Seq<char>, nat)>,
    prices: Seq<nat>,
    i: int,
    value: nat,
    repay: nat,
)
    requires
        same_pools(a, b),
    ensures
        collateral_tally(a, collaterals, prices, i, value, repay) == collateral_tally(
            b,
            collaterals,
            prices,
            i,
            value,
            repay,
        ),
    decreases collaterals.len() - i,
{
    if !(i < 0 || i >= collaterals.len() || i >= prices.len()) {
        let token = collaterals[i].0;
        let amount = collaterals[i].1;
        match checked_ratio(amount, prices[i], decimal_unit()) {
            Some(worth) => {
                match a.collateral_info(token) {
                    Some(info) => {
                        let ladder = ladder_of(a, token, info.max_slot as nat);
                        assert(ladder =~= ladder_of(b, token, info.max_slot as nat));
                        match ladder_repay(ladder, prices[i], 0, amount, repay) {
                            Some(repay_after) => {
                                lemma_tally_reads_pools_only(
                                    a,
                                    b,
                                    collaterals,
                                    prices,
                                    i + 1,
                                    value + worth,
                                    repay_after,
                                );
                            },
                            None => {},
                        }
                    },
                    None => {},
                }
            },
            None => {},
        }
    }
}

/// The plan is a function of its arguments, and of the ledger it reads only
/// the slot counts and the pools: the same loan, collateral, prices, rates
/// and thresholds against the same pools give the same plan, whatever else
/// the ledgers hold.
pub proof fn lemma_plan_is_determined(
    a: Ledger,
    b: Ledger,
    config_a: Config,
    config_b: Config,
    tax_rate: nat,
    borrow_amount: nat,
    borrow_limit: nat,
    collaterals: Seq<(Seq<char>, nat)>,
    prices: Seq<nat>,
)
    requires
        same_pools(a, b),
        config_a.bid_fee@ == config_b.bid_fee@,
        config_a.safe_ratio@ == config_b.safe_ratio@,
        config_a.liquidation_threshold@ == config_b.liquidation_threshold@,
    ensures
        liquidation_plan(a, config_a, tax_rate, borrow_amount, borrow_limit, collaterals, prices)
            == liquidation_plan(
            b,
            config_b,
            tax_rate,
            borrow_amount,
            borrow_limit,
            collaterals,
            prices,
        ),
{
    lemma_tally_reads_pools_only(a, b, collaterals, prices, 0, 0, 0);
}

} // verus!
