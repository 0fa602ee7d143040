use liquidation_queue::math::{Decimal256, Uint256};

fn dec(atomics: u128) -> Decimal256 {
    Decimal256 { atomics: Uint256::from_u128(atomics) }
}

#[test]
fn from_u128_splits_into_words() {
    let v = Uint256::from_u128((7u128 << 64) + 5);
    assert_eq!(v, Uint256 { w0: 5, w1: 7, w2: 0, w3: 0 });
    assert_eq!(v.to_u128(), Some((7u128 << 64) + 5));
}

#[test]
fn to_u128_is_none_above_128_bits() {
    let v = Uint256 { w0: 0, w1: 0, w2: 1, w3: 0 };
    assert_eq!(v.to_u128(), None);
}

#[test]
fn comparisons_go_by_value() {
    let small = Uint256 { w0: u64::MAX, w1: 0, w2: 0, w3: 0 };
    let large = Uint256 { w0: 0, w1: 1, w2: 0, w3: 0 };
    assert!(small.lt(&large));
    assert!(!large.lt(&small));
    assert!(small.le(&small));
    assert!(!small.lt(&small));
    assert!(Uint256::zero().is_zero());
    assert!(!Uint256::one().is_zero());
}

#[test]
fn percent_and_permille() {
    assert_eq!(Decimal256::percent(50), dec(500_000_000_000_000_000));
    assert_eq!(Decimal256::permille(125), dec(125_000_000_000_000_000));
    assert_eq!(Decimal256::one(), dec(1_000_000_000_000_000_000));
    assert!(Decimal256::zero().is_zero());
}

#[test]
fn uint_times_decimal_rounds_down() {
    let a = Uint256::from_u128(101);
    let half = Decimal256::percent(50);
    assert_eq!(a.checked_mul_decimal(half), Some(Uint256::from_u128(50)));
}

#[test]
fn uint_times_decimal_overflow_is_none() {
    let a = Uint256::max_value();
    let two = Decimal256::percent(200);
    assert_eq!(a.checked_mul_decimal(two), None);
}

#[test]
fn uint_times_decimal_at_the_edge() {
    let a = Uint256::max_value();
    assert_eq!(a.checked_mul_decimal(dec(1)), Some(Uint256 {
        w0: 0x5afe_688c_928e_1f21,
        w1: 0x5fe6_45cc_4873_f9e6,
        w2: 0x725d_d1d2_43ab_a0e7,
        w3: 0x0000_0000_0000_0012,
    }));
    assert_eq!(a.checked_mul_decimal(dec(2)), None);
}

#[test]
fn uint_over_decimal_rounds_down() {
    let a = Uint256::from_u128(1_000_000);
    assert_eq!(a.checked_div_decimal(Decimal256::percent(300)), Some(Uint256::from_u128(333_333)));
}

#[test]
fn uint_over_zero_decimal_is_none() {
    let a = Uint256::from_u128(1_000_000);
    assert_eq!(a.checked_div_decimal(Decimal256::zero()), None);
    assert_eq!(Uint256::zero().checked_div_decimal(Decimal256::zero()), None);
}

#[test]
fn uint_over_decimal_overflow_is_none() {
    let fits = Uint256 { w0: 0, w1: 0, w2: 0, w3: 1 };
    assert_eq!(fits.checked_div_decimal(Decimal256::one()), Some(fits));
    assert_eq!(Uint256::max_value().checked_div_decimal(Decimal256::one()), None);
}

#[test]
fn checked_add_sums() {
    let a = Uint256 { w0: u64::MAX, w1: 0, w2: 0, w3: 0 };
    assert_eq!(a.checked_add(Uint256::one()), Some(Uint256 { w0: 0, w1: 1, w2: 0, w3: 0 }));
}

#[test]
fn checked_add_overflow_is_none() {
    assert_eq!(Uint256::max_value().checked_add(Uint256::one()), None);
    assert_eq!(Uint256::max_value().checked_add(Uint256::zero()), Some(Uint256::max_value()));
}

#[test]
fn checked_sub_subtracts() {
    let a = Uint256 { w0: 0, w1: 1, w2: 0, w3: 0 };
    assert_eq!(a.checked_sub(Uint256::one()), Some(Uint256 { w0: u64::MAX, w1: 0, w2: 0, w3: 0 }));
}

#[test]
fn checked_sub_below_zero_is_none() {
    assert_eq!(Uint256::one().checked_sub(Uint256::from_u64(2)), None);
}

#[test]
fn product_fits_tells_overflow() {
    let half = Uint256 { w0: 0, w1: 0, w2: 1, w3: 0 };
    assert!(half.product_fits(&Uint256 { w0: u64::MAX, w1: u64::MAX, w2: 0, w3: 0 }));
    assert!(!half.product_fits(&half));
    assert!(Uint256::max_value().product_fits(&Uint256::zero()));
    assert!(Uint256::max_value().product_fits(&Uint256::one()));
    assert!(!Uint256::max_value().product_fits(&Uint256::from_u64(2)));
}

#[test]
fn decimal_times_decimal() {
    let a = Decimal256::percent(99);
    assert_eq!(a.checked_mul(a), Some(dec(980_100_000_000_000_000)));
    assert_eq!(Decimal256 { atomics: Uint256::max_value() }.checked_mul(Decimal256::percent(200)), None);
}

#[test]
fn decimal_over_decimal() {
    let a = Decimal256::percent(350);
    assert_eq!(a.checked_div(Decimal256::percent(200)), Some(dec(1_750_000_000_000_000_000)));
    assert_eq!(a.checked_div(Decimal256::zero()), None);
    assert_eq!(Decimal256 { atomics: Uint256::max_value() }.checked_div(Decimal256::one()), None);
}

#[test]
fn decimal_minus_decimal() {
    assert_eq!(Decimal256::one().checked_sub(Decimal256::percent(1)), Some(Decimal256::percent(99)));
    assert_eq!(Decimal256::percent(1).checked_sub(Decimal256::one()), None);
}

#[test]
fn decimal_from_uint() {
    assert_eq!(
        Decimal256::checked_from_uint256(Uint256::from_u128(5)),
        Some(dec(5_000_000_000_000_000_000))
    );
    assert_eq!(Decimal256::checked_from_uint256(Uint256::max_value()), None);
}

#[test]
fn decimal_min_picks_the_smaller() {
    let a = Decimal256::percent(30);
    let b = Decimal256::percent(70);
    assert_eq!(a.min(b), a);
    assert_eq!(b.min(a), a);
    assert!(a.lt(&b));
    assert!(a.le(&a));
}
