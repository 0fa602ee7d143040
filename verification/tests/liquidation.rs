use liquidation_queue::error::Error;
use liquidation_queue::liquidation::{
    absorbed_collateral, base_fee_deductor, bid_value, compute_liquidation,
    is_safely_collateralized, liquidation_ratio, offer_to_pool, ratio_of, scale_collaterals,
    sweep_ladder, tally_collaterals, TokensHuman,
};
use liquidation_queue::math::{Decimal256, Uint256};
use liquidation_queue::query::query_liquidation_amount;
use liquidation_queue::state::{BidPool, CollateralInfo, Config, Ledger, PoolEntry};

fn uint(v: u128) -> Uint256 {
    Uint256::from_u128(v)
}

fn dec(atomics: u128) -> Decimal256 {
    Decimal256 { atomics: Uint256::from_u128(atomics) }
}

fn pool(total: u128, premium: Decimal256) -> BidPool {
    BidPool {
        sum_snapshot: Decimal256::zero(),
        product_snapshot: Decimal256::one(),
        total_bid_amount: uint(total),
        premium_rate: premium,
        current_epoch: 0,
        current_scale: 0,
    }
}

fn config(threshold: u128) -> Config {
    Config {
        owner: "owner0000".to_string(),
        oracle_contract: "oracle0000".to_string(),
        stable_denom: "uusd".to_string(),
        safe_ratio: Decimal256::percent(80),
        bid_fee: Decimal256::percent(1),
        liquidation_threshold: uint(threshold),
        price_timeframe: 60,
        waiting_period: 60,
    }
}

fn ledger_with(threshold: u128, pools: Vec<(&str, u8, BidPool)>, infos: Vec<(&str, u8)>) -> Ledger {
    let mut ledger = Ledger::new();
    ledger.store_config(config(threshold));
    for (token, max_slot) in infos {
        ledger.store_collateral_info(CollateralInfo {
            collateral_token: token.to_string(),
            max_slot,
        });
    }
    for (token, slot, p) in pools {
        ledger.store_bid_pool(PoolEntry { collateral_token: token.to_string(), slot, pool: p });
    }
    ledger
}

fn one_pool_ledger(threshold: u128) -> Ledger {
    ledger_with(
        threshold,
        vec![("token0", 0, pool(1_000_000_000, Decimal256::percent(1)))],
        vec![("token0", 1)],
    )
}

fn two_slot_ledger() -> Ledger {
    ledger_with(
        0,
        vec![
            ("token0", 1, pool(1_000_000_000, Decimal256::percent(5))),
            ("token0", 0, pool(100_000_000, Decimal256::percent(1))),
        ],
        vec![("token0", 2)],
    )
}

fn holdings(entries: Vec<(&str, u128)>) -> TokensHuman {
    entries.into_iter().map(|(t, a)| (t.to_string(), uint(a))).collect()
}

#[test]
fn safe_loan_gets_empty_plan() {
    let ledger = two_slot_ledger();
    let res = query_liquidation_amount(
        &ledger,
        Decimal256::percent(1),
        uint(50_000_000),
        uint(50_000_000),
        holdings(vec![("token0", 100_000_000)]),
        vec![Decimal256::one()],
    );
    assert_eq!(res.unwrap().collaterals, holdings(vec![]));
}

#[test]
fn safe_loan_gets_empty_plan_whatever_the_ledger_holds() {
    let ledger = ledger_with(0, vec![], vec![]);
    let res = compute_liquidation(
        &ledger,
        &config(0),
        Decimal256::percent(500),
        uint(1),
        uint(2),
        &holdings(vec![("unknown", 100_000_000)]),
        &vec![Decimal256 { atomics: Uint256::max_value() }],
    );
    assert_eq!(res, Ok(holdings(vec![])));
    assert!(is_safely_collateralized(uint(1), uint(2)));
    assert!(is_safely_collateralized(uint(2), uint(2)));
    assert!(!is_safely_collateralized(uint(3), uint(2)));
}

#[test]
fn ladder_is_satisfied_from_first_slot() {
    let ledger = two_slot_ledger();
    let token = "token0".to_string();
    let repay = sweep_ladder(&ledger, &token, Decimal256::one(), 2, uint(50_505_051), uint(0));
    assert_eq!(repay, Some(uint(50_000_000)));
    let richer = ledger_with(
        0,
        vec![
            ("token0", 0, pool(100_000_000, Decimal256::percent(1))),
            ("token0", 1, pool(7, Decimal256::percent(90))),
        ],
        vec![("token0", 2)],
    );
    let again = sweep_ladder(&richer, &token, Decimal256::one(), 2, uint(50_505_051), uint(0));
    assert_eq!(again, Some(uint(50_000_000)));
}

#[test]
fn ladder_moves_on_when_a_slot_is_drained() {
    let ledger = two_slot_ledger();
    let token = "token0".to_string();
    let repay = sweep_ladder(&ledger, &token, Decimal256::one(), 2, uint(200_000_000), uint(5));
    assert_eq!(repay, Some(uint(194_040_409)));
}

#[test]
fn ladder_skips_missing_and_empty_slots() {
    let ledger = ledger_with(
        0,
        vec![
            ("token0", 1, pool(0, Decimal256::percent(200))),
            ("token0", 3, pool(1_000, Decimal256::percent(10))),
            ("token1", 0, pool(1_000_000, Decimal256::zero())),
        ],
        vec![("token0", 4)],
    );
    let token = "token0".to_string();
    assert_eq!(
        sweep_ladder(&ledger, &token, Decimal256::one(), 4, uint(100), uint(0)),
        Some(uint(90))
    );
    assert_eq!(
        sweep_ladder(&ledger, &token, Decimal256::one(), 3, uint(100), uint(0)),
        Some(uint(0))
    );
}

#[test]
fn offer_below_liquidity_is_covered() {
    let r = offer_to_pool(uint(50_505_051), Decimal256::one(), uint(100_000_000), Decimal256::percent(1));
    assert_eq!(r, Some((uint(50_000_000), None)));
}

#[test]
fn offer_above_liquidity_drains_the_pool() {
    let r = offer_to_pool(uint(200_000_000), Decimal256::one(), uint(100_000_000), Decimal256::percent(1));
    assert_eq!(r, Some((uint(100_000_000), Some(uint(98_989_899)))));
}

#[test]
fn offer_with_premium_above_one_fails() {
    let r = offer_to_pool(uint(200), Decimal256::one(), uint(100), Decimal256::percent(101));
    assert_eq!(r, None);
}

#[test]
fn bid_value_and_absorbed_collateral() {
    assert_eq!(
        bid_value(uint(1_000), Decimal256::percent(250), Decimal256::percent(4)),
        Some(uint(2_400))
    );
    assert_eq!(
        absorbed_collateral(uint(2_400), Decimal256::percent(250), Decimal256::percent(4)),
        Some(uint(1_000))
    );
    assert_eq!(absorbed_collateral(uint(2_400), Decimal256::zero(), Decimal256::percent(4)), None);
    assert_eq!(absorbed_collateral(uint(2_400), Decimal256::one(), Decimal256::one()), None);
}

#[test]
fn ladder_at_zero_price_repays_nothing() {
    let ledger = one_pool_ledger(0);
    let token = "token0".to_string();
    assert_eq!(
        sweep_ladder(&ledger, &token, Decimal256::zero(), 1, uint(100), uint(0)),
        Some(uint(0))
    );
}

#[test]
fn ladder_fails_when_discounted_price_rounds_to_zero() {
    let token = "token0".to_string();
    let tiny = ledger_with(
        0,
        vec![("token0", 0, pool(1, dec(999_999_999_999_999_999)))],
        vec![("token0", 1)],
    );
    assert_eq!(
        sweep_ladder(&tiny, &token, Decimal256::percent(50), 1, uint(4_000_000_000_000_000_000), uint(0)),
        None
    );
}

#[test]
fn ladder_fails_when_a_pool_absorbs_more_than_remains() {
    let token = "token0".to_string();
    let tiny = ledger_with(
        0,
        vec![("token0", 0, pool(2, dec(999_999_999_999_999_981)))],
        vec![("token0", 1)],
    );
    assert_eq!(
        sweep_ladder(&tiny, &token, Decimal256::percent(10), 1, uint(1_900_000_000_000_000_000), uint(0)),
        None
    );
    assert_eq!(
        sweep_ladder(&tiny, &token, Decimal256::percent(10), 1, uint(2_000_000_000_000_000_000), uint(0)),
        Some(uint(2))
    );
}

#[test]
fn ladder_fails_when_the_total_overflows() {
    let ledger = one_pool_ledger(0);
    let token = "token0".to_string();
    assert_eq!(
        sweep_ladder(&ledger, &token, Decimal256::one(), 1, uint(100), Uint256::max_value()),
        None
    );
}

#[test]
fn fee_deductor_is_product_of_what_remains() {
    assert_eq!(
        base_fee_deductor(Decimal256::percent(1), Decimal256::percent(1)),
        Some(dec(980_100_000_000_000_000))
    );
    assert_eq!(base_fee_deductor(Decimal256::percent(101), Decimal256::percent(1)), None);
    assert_eq!(base_fee_deductor(Decimal256::percent(1), Decimal256::percent(101)), None);
}

#[test]
fn tally_adds_value_and_repay() {
    let ledger = ledger_with(
        0,
        vec![
            ("token0", 0, pool(1_000_000_000, Decimal256::percent(1))),
            ("token1", 1, pool(5_000, Decimal256::percent(5))),
        ],
        vec![("token0", 1), ("token1", 2)],
    );
    let r = tally_collaterals(
        &ledger,
        &holdings(vec![("token0", 100_000_000), ("token1", 2)]),
        &vec![Decimal256::one(), Decimal256::percent(200)],
    );
    assert_eq!(r, Ok((uint(100_000_004), uint(99_000_003))));
}

#[test]
fn tally_stops_at_the_shorter_list() {
    let ledger = one_pool_ledger(0);
    let r = tally_collaterals(
        &ledger,
        &holdings(vec![("token0", 100), ("token9", 100)]),
        &vec![Decimal256::one()],
    );
    assert_eq!(r, Ok((uint(100), uint(99))));
    let missing = tally_collaterals(
        &ledger,
        &holdings(vec![("token0", 100), ("token9", 100)]),
        &vec![Decimal256::one(), Decimal256::one()],
    );
    assert_eq!(missing, Err(Error::NotFound));
}

#[test]
fn ratio_under_threshold_sets_debt_against_repay() {
    let r = liquidation_ratio(
        &config(200_000_000),
        uint(60_000_000),
        uint(50_000_000),
        uint(100_000_000),
        uint(97_029_900),
    );
    assert_eq!(r, Some(dec(618_366_091_277_018_733)));
}

#[test]
fn ratio_over_threshold_sets_excess_against_room() {
    let r = liquidation_ratio(
        &config(50_000_000),
        uint(60_000_000),
        uint(50_000_000),
        uint(100_000_000),
        uint(97_029_900),
    );
    assert_eq!(r, Some(dec(350_693_232_848_032_347)));
}

#[test]
fn ratio_is_capped_at_one() {
    let r = liquidation_ratio(
        &config(200_000_000),
        uint(60_000_000),
        uint(50_000_000),
        uint(100_000_000),
        uint(30_000_000),
    );
    assert_eq!(r, Some(Decimal256::one()));
}

#[test]
fn ratio_fails_when_safe_amount_exceeds_debt() {
    let mut cfg = config(0);
    cfg.safe_ratio = Decimal256::percent(300);
    let r = liquidation_ratio(&cfg, uint(60_000_000), uint(50_000_000), uint(100_000_000), uint(97_029_900));
    assert_eq!(r, None);
}

#[test]
fn ratio_of_two_integers() {
    assert_eq!(ratio_of(uint(1), uint(3)), Some(dec(333_333_333_333_333_333)));
    assert_eq!(ratio_of(uint(1), uint(0)), None);
    assert_eq!(ratio_of(Uint256::max_value(), uint(1)), None);
}

#[test]
fn scaling_drops_entries_that_come_to_nothing() {
    let r = scale_collaterals(
        &holdings(vec![("a", 3), ("b", 1), ("c", 0), ("d", 1_000)]),
        Decimal256::percent(50),
    );
    assert_eq!(r, Some(holdings(vec![("a", 1), ("d", 500)])));
}

#[test]
fn scaling_fails_on_overflow() {
    let big: TokensHuman = vec![("a".to_string(), Uint256::max_value())];
    assert_eq!(scale_collaterals(&big, Decimal256::percent(50)), None);
}

#[test]
fn plan_under_threshold_repays_whole_debt() {
    let ledger = one_pool_ledger(200_000_000);
    let res = query_liquidation_amount(
        &ledger,
        Decimal256::percent(1),
        uint(60_000_000),
        uint(50_000_000),
        holdings(vec![("token0", 100_000_000)]),
        vec![Decimal256::one()],
    );
    assert_eq!(res.unwrap().collaterals, holdings(vec![("token0", 61_836_609)]));
}

#[test]
fn plan_over_threshold_brings_loan_to_safe_ratio() {
    let ledger = one_pool_ledger(50_000_000);
    let res = query_liquidation_amount(
        &ledger,
        Decimal256::percent(1),
        uint(60_000_000),
        uint(50_000_000),
        holdings(vec![("token0", 100_000_000)]),
        vec![Decimal256::one()],
    );
    assert_eq!(res.unwrap().collaterals, holdings(vec![("token0", 35_069_323)]));
}

#[test]
fn plan_scales_every_holding_and_omits_empty_ones() {
    let ledger = ledger_with(
        50_000_000,
        vec![
            ("token0", 0, pool(1_000_000_000, Decimal256::percent(1))),
            ("token1", 1, pool(5_000, Decimal256::percent(5))),
        ],
        vec![("token0", 1), ("token1", 2)],
    );
    let res = query_liquidation_amount(
        &ledger,
        Decimal256::percent(1),
        uint(60_000_000),
        uint(50_000_000),
        holdings(vec![("token0", 100_000_000), ("token1", 2)]),
        vec![Decimal256::one(), Decimal256::percent(200)],
    );
    assert_eq!(res.unwrap().collaterals, holdings(vec![("token0", 35_069_322)]));
}

#[test]
fn plan_never_exceeds_holdings() {
    let ledger = one_pool_ledger(50_000_000);
    for borrow in [50_000_001u128, 60_000_000, 97_029_899, 97_029_900, 500_000_000] {
        let res = query_liquidation_amount(
            &ledger,
            Decimal256::percent(1),
            uint(borrow),
            uint(50_000_000),
            holdings(vec![("token0", 100_000_000)]),
            vec![Decimal256::one()],
        )
        .unwrap();
        for (_, amount) in res.collaterals {
            assert!(amount.le(&uint(100_000_000)));
        }
    }
}

#[test]
fn larger_debt_never_sells_less() {
    let ledger = one_pool_ledger(50_000_000);
    let mut last = uint(0);
    for borrow in [40_000_000u128, 50_000_001, 60_000_000, 70_000_000, 97_029_899, 97_029_900, 98_000_000] {
        let res = query_liquidation_amount(
            &ledger,
            Decimal256::percent(1),
            uint(borrow),
            uint(50_000_000),
            holdings(vec![("token0", 100_000_000)]),
            vec![Decimal256::one()],
        )
        .unwrap();
        let sold = res.collaterals.first().map(|c| c.1).unwrap_or(uint(0));
        assert!(last.le(&sold));
        last = sold;
    }
    assert_eq!(last, uint(100_000_000));
}

#[test]
fn plan_for_larger_debt_has_exact_amount() {
    let ledger = one_pool_ledger(50_000_000);
    let res = query_liquidation_amount(
        &ledger,
        Decimal256::percent(1),
        uint(70_000_000),
        uint(50_000_000),
        holdings(vec![("token0", 100_000_000)]),
        vec![Decimal256::one()],
    );
    assert_eq!(res.unwrap().collaterals, holdings(vec![("token0", 52_603_984)]));
}

#[test]
fn same_question_same_answer() {
    let ledger = one_pool_ledger(50_000_000);
    let ask = || {
        query_liquidation_amount(
            &ledger,
            Decimal256::percent(1),
            uint(60_000_000),
            uint(50_000_000),
            holdings(vec![("token0", 100_000_000)]),
            vec![Decimal256::one()],
        )
    };
    assert_eq!(ask(), ask());
}

#[test]
fn no_liquidity_sells_everything() {
    let ledger = ledger_with(
        50_000_000,
        vec![("token0", 0, pool(0, Decimal256::percent(1)))],
        vec![("token0", 3), ("token1", 0)],
    );
    let held = holdings(vec![("token0", 100_000_000), ("token1", 0), ("token0", 5)]);
    let res = query_liquidation_amount(
        &ledger,
        Decimal256::percent(1),
        uint(1),
        uint(0),
        holdings(vec![("token0", 100_000_000), ("token1", 0), ("token0", 5)]),
        vec![Decimal256::one(), Decimal256::one(), Decimal256::percent(300)],
    );
    assert_eq!(res.unwrap().collaterals, held);
}

#[test]
fn insufficient_bids_sell_everything() {
    let ledger = one_pool_ledger(50_000_000);
    let res = query_liquidation_amount(
        &ledger,
        Decimal256::percent(1),
        uint(97_029_900),
        uint(50_000_000),
        holdings(vec![("token0", 100_000_000)]),
        vec![Decimal256::one()],
    );
    assert_eq!(res.unwrap().collaterals, holdings(vec![("token0", 100_000_000)]));
}

#[test]
fn mismatched_lengths_are_invalid_input() {
    let ledger = one_pool_ledger(50_000_000);
    let res = query_liquidation_amount(
        &ledger,
        Decimal256::percent(1),
        uint(60_000_000),
        uint(50_000_000),
        holdings(vec![("token0", 100_000_000)]),
        vec![],
    );
    assert_eq!(res, Err(Error::InvalidInput));
}

#[test]
fn missing_config_is_not_found() {
    let ledger = Ledger::new();
    let res = query_liquidation_amount(
        &ledger,
        Decimal256::percent(1),
        uint(40_000_000),
        uint(50_000_000),
        holdings(vec![]),
        vec![],
    );
    assert_eq!(res, Err(Error::NotFound));
}

#[test]
fn unregistered_collateral_is_not_found() {
    let ledger = one_pool_ledger(50_000_000);
    let res = query_liquidation_amount(
        &ledger,
        Decimal256::percent(1),
        uint(60_000_000),
        uint(50_000_000),
        holdings(vec![("token9", 100_000_000)]),
        vec![Decimal256::one()],
    );
    assert_eq!(res, Err(Error::NotFound));
}

#[test]
fn overflowing_value_is_arithmetic_domain() {
    let ledger = one_pool_ledger(50_000_000);
    let res = query_liquidation_amount(
        &ledger,
        Decimal256::percent(1),
        uint(60_000_000),
        uint(50_000_000),
        vec![("token0".to_string(), Uint256::max_value())],
        vec![Decimal256::percent(200)],
    );
    assert_eq!(res, Err(Error::ArithmeticDomain));
}

#[test]
fn tax_above_one_is_arithmetic_domain() {
    let ledger = one_pool_ledger(50_000_000);
    let res = query_liquidation_amount(
        &ledger,
        Decimal256::percent(101),
        uint(60_000_000),
        uint(50_000_000),
        holdings(vec![("token0", 100_000_000)]),
        vec![Decimal256::one()],
    );
    assert_eq!(res, Err(Error::ArithmeticDomain));
}
