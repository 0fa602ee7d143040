//! 256-bit unsigned integers and 18-digit fixed-point decimals.
//!
//! A value is held as four 64-bit words, least significant first, and is
//! viewed as the natural number it stands for. Comparisons are computed on
//! the words; sums, differences, products and quotients are computed by
//! `cosmwasm_bignumber`, and each is only asked for a result that fits in
//! 256 bits: the `checked_*` operations test that first and return `None`
//! where it does not.

use vstd::prelude::*;

verus! {

/// Two to the power 64.
pub open spec fn word_base() -> nat {
    18_446_744_073_709_551_616nat
}

/// The largest value that 256 bits hold.
pub open spec fn max_u256() -> nat {
    115792089237316195423570985008687907853269984665640564039457584007913129639935nat
}

/// The fixed-point representation of 1.0: ten to the power 18.
pub open spec fn decimal_unit() -> nat {
    1_000_000_000_000_000_000nat
}

/// `a + b`, where it fits in 256 bits.
pub open spec fn checked_sum(a: nat, b: nat) -> Option<nat> {
    if a + b <= max_u256() {
        Some(a + b)
    } else {
        None
    }
}

/// `a - b`, where it is not negative.
pub open spec fn checked_difference(a: nat, b: nat) -> Option<nat> {
    if a >= b {
        Some((a - b) as nat)
    } else {
        None
    }
}

/// `a * n / d` rounded down, where `d` is not zero and the product `a * n`
/// fits in 256 bits.
pub open spec fn checked_ratio(a: nat, n: nat, d: nat) -> Option<nat> {
    if d != 0 && a * n <= max_u256() {
        Some(a * n / d)
    } else {
        None
    }
}

/// An unsigned 256-bit integer.
#[derive(Clone, Copy, Debug, PartialEq, Eq, Structural)]
pub struct Uint256 {
    pub w0: u64,
    pub w1: u64,
    pub w2: u64,
    pub w3: u64,
}

/// A fixed-point decimal with 18 fractional digits: `atomics` is the value
/// multiplied by ten to the power 18.
#[derive(Clone, Copy, Debug, PartialEq, Eq, Structural)]
pub struct Decimal256 {
    pub atomics: Uint256,
}

impl View for Uint256 {
    type V = nat;

    open spec fn view(&self) -> nat {
        (self.w0 as nat) + (self.w1 as nat) * word_base() + (self.w2 as nat) * word_base()
            * word_base() + (self.w3 as nat) * word_base() * word_base() * word_base()
    }
}

impl View for Decimal256 {
    type V = nat;

    open spec fn view(&self) -> nat {
        self.atomics@
    }
}

/// Whether an optional integer holds the optional value `v`.
pub open spec fn holds_value(r: Option<Uint256>, v: Option<nat>) -> bool {
    match r {
        Some(x) => v == Some(x@),
        None => v.is_none(),
    }
}

/// Whether an optional decimal holds the optional atomics `v`.
pub open spec fn holds_atomics(r: Option<Decimal256>, v: Option<nat>) -> bool {
    match r {
        Some(x) => v == Some(x@),
        None => v.is_none(),
    }
}

/// Two integers with the same value have the same words.
pub proof fn lemma_view_injective(a: Uint256, b: Uint256)
    requires
        a@ == b@,
    ensures
        a == b,
{
    if a.w3 != b.w3 {
        assert(a@ != b@);
    } else if a.w2 != b.w2 {
        assert(a@ != b@);
    } else if a.w1 != b.w1 {
        assert(a@ != b@);
    }
}

/// Every value fits in 256 bits.
pub proof fn lemma_view_bounded(a: Uint256)
    ensures
        a@ <= max_u256(),
{
}

/// For a positive `b`, `a * b` stays within `m` exactly when `a` stays
/// within `m / b`.
proof fn lemma_product_bound(a: nat, b: nat, m: nat)
    requires
        b > 0,
    ensures
        (a * b <= m) == (a <= m / b),
{
    assert((a * b <= m) == (a <= m / b)) by (nonlinear_arith)
        requires
            b > 0,
    ;
}

/// `Uint256::multiply_ratio` of `cosmwasm_bignumber`: `a * n / d`, rounded
/// down. The crate panics where `d` is zero or `a * n` exceeds 256 bits.
#[verifier::external_body]
fn multiply_ratio(a: Uint256, n: Uint256, d: Uint256) -> (r: Uint256)
    requires
        d@ != 0,
        a@ * n@ <= max_u256(),
    ensures
        r@ == a@ * n@ / d@,
{
    let mut x = cosmwasm_bignumber::Uint256::zero();
    x.0.0 = [a.w0, a.w1, a.w2, a.w3];
    let mut y = cosmwasm_bignumber::Uint256::zero();
    y.0.0 = [n.w0, n.w1, n.w2, n.w3];
    let mut z = cosmwasm_bignumber::Uint256::zero();
    z.0.0 = [d.w0, d.w1, d.w2, d.w3];
    let q = x.multiply_ratio(y.0, z.0);
    Uint256 { w0: q.0.0[0], w1: q.0.0[1], w2: q.0.0[2], w3: q.0.0[3] }
}

/// `Uint256 += Uint256` of `cosmwasm_bignumber`: the sum. The crate panics
/// where it exceeds 256 bits.
#[verifier::external_body]
fn sum_of(a: Uint256, b: Uint256) -> (r: Uint256)
    requires
        a@ + b@ <= max_u256(),
    ensures
        r@ == a@ + b@,
{
    let mut x = cosmwasm_bignumber::Uint256::zero();
    x.0.0 = [a.w0, a.w1, a.w2, a.w3];
    let mut y = cosmwasm_bignumber::Uint256::zero();
    y.0.0 = [b.w0, b.w1, b.w2, b.w3];
    x += y;
    Uint256 { w0: x.0.0[0], w1: x.0.0[1], w2: x.0.0[2], w3: x.0.0[3] }
}

/// `Uint256 - Uint256` of `cosmwasm_bignumber`: the difference. The crate
/// panics where the right side is the larger.
#[verifier::external_body]
fn difference_of(a: Uint256, b: Uint256) -> (r: Uint256)
    requires
        a@ >= b@,
    ensures
        r@ == a@ - b@,
{
    let mut x = cosmwasm_bignumber::Uint256::zero();
    x.0.0 = [a.w0, a.w1, a.w2, a.w3];
    let mut y = cosmwasm_bignumber::Uint256::zero();
    y.0.0 = [b.w0, b.w1, b.w2, b.w3];
    let q = x - y;
    Uint256 { w0: q.0.0[0], w1: q.0.0[1], w2: q.0.0[2], w3: q.0.0[3] }
}

/// `Uint256 * Decimal256` of `cosmwasm_bignumber`: the product of the integer
/// and the decimal's atomics, divided by ten to the power 18 and rounded
/// down. The crate panics where the product exceeds 256 bits.
#[verifier::external_body]
fn times_decimal(a: Uint256, d: Decimal256) -> (r: Uint256)
    requires
        a@ * d@ <= max_u256(),
    ensures
        r@ == a@ * d@ / decimal_unit(),
{
    let mut x = cosmwasm_bignumber::Uint256::zero();
    x.0.0 = [a.w0, a.w1, a.w2, a.w3];
    let mut y = cosmwasm_bignumber::Decimal256::zero();
    y.0.0 = [d.atomics.w0, d.atomics.w1, d.atomics.w2, d.atomics.w3];
    let q = x * y;
    Uint256 { w0: q.0.0[0], w1: q.0.0[1], w2: q.0.0[2], w3: q.0.0[3] }
}

/// `Uint256 / Decimal256` of `cosmwasm_bignumber`: the integer times ten to
/// the power 18, divided by the decimal's atomics and rounded down. The
/// crate panics where the decimal is zero or that product exceeds 256 bits.
#[verifier::external_body]
fn over_decimal(a: Uint256, d: Decimal256) -> (r: Uint256)
    requires
        d@ != 0,
        a@ * decimal_unit() <= max_u256(),
    ensures
        r@ == a@ * decimal_unit() / d@,
{
    let mut x = cosmwasm_bignumber::Uint256::zero();
    x.0.0 = [a.w0, a.w1, a.w2, a.w3];
    let mut y = cosmwasm_bignumber::Decimal256::zero();
    y.0.0 = [d.atomics.w0, d.atomics.w1, d.atomics.w2, d.atomics.w3];
    let q = x / y;
    Uint256 { w0: q.0.0[0], w1: q.0.0[1], w2: q.0.0[2], w3: q.0.0[3] }
}

/// `Decimal256 * Decimal256` of `cosmwasm_bignumber`: the product of the two
/// atomics, divided by ten to the power 18 and rounded down. The crate
/// panics where the product exceeds 256 bits.
#[verifier::external_body]
fn decimal_product(a: Decimal256, b: Decimal256) -> (r: Decimal256)
    requires
        a@ * b@ <= max_u256(),
    ensures
        r@ == a@ * b@ / decimal_unit(),
{
    let mut x = cosmwasm_bignumber::Decimal256::zero();
    x.0.0 = [a.atomics.w0, a.atomics.w1, a.atomics.w2, a.atomics.w3];
    let mut y = cosmwasm_bignumber::Decimal256::zero();
    y.0.0 = [b.atomics.w0, b.atomics.w1, b.atomics.w2, b.atomics.w3];
    let q = x * y;
    Decimal256 { atomics: Uint256 { w0: q.0.0[0], w1: q.0.0[1], w2: q.0.0[2], w3: q.0.0[3] } }
}

/// `Decimal256 / Decimal256` of `cosmwasm_bignumber`: the left atomics times
/// ten to the power 18, divided by the right atomics and rounded down. The
/// crate panics where the right side is zero or that product exceeds 256
/// bits.
#[verifier::external_body]
fn decimal_quotient(a: Decimal256, b: Decimal256) -> (r: Decimal256)
    requires
        b@ != 0,
        a@ * decimal_unit() <= max_u256(),
    ensures
        r@ == a@ * decimal_unit() / b@,
{
    let mut x = cosmwasm_bignumber::Decimal256::zero();
    x.0.0 = [a.atomics.w0, a.atomics.w1, a.atomics.w2, a.atomics.w3];
    let mut y = cosmwasm_bignumber::Decimal256::zero();
    y.0.0 = [b.atomics.w0, b.atomics.w1, b.atomics.w2, b.atomics.w3];
    let q = x / y;
    Decimal256 { atomics: Uint256 { w0: q.0.0[0], w1: q.0.0[1], w2: q.0.0[2], w3: q.0.0[3] } }
}

/// `Decimal256 - Decimal256` of `cosmwasm_bignumber`: the difference of the
/// atomics. The crate panics where the right side is the larger.
#[verifier::external_body]
fn decimal_difference(a: Decimal256, b: Decimal256) -> (r: Decimal256)
    requires
        a@ >= b@,
    ensures
        r@ == a@ - b@,
{
    let mut x = cosmwasm_bignumber::Decimal256::zero();
    x.0.0 = [a.atomics.w0, a.atomics.w1, a.atomics.w2, a.atomics.w3];
    let mut y = cosmwasm_bignumber::Decimal256::zero();
    y.0.0 = [b.atomics.w0, b.atomics.w1, b.atomics.w2, b.atomics.w3];
    let q = x - y;
    Decimal256 { atomics: Uint256 { w0: q.0.0[0], w1: q.0.0[1], w2: q.0.0[2], w3: q.0.0[3] } }
}

/// `Decimal256::from_uint256` of `cosmwasm_bignumber`: the decimal that
/// stands for the integer, whose atomics are the integer times ten to the
/// power 18. The crate panics where that exceeds 256 bits.
#[verifier::external_body]
fn decimal_of(a: Uint256) -> (r: Decimal256)
    requires
        a@ * decimal_unit() <= max_u256(),
    ensures
        r@ == a@ * decimal_unit(),
{
    let mut x = cosmwasm_bignumber::Uint256::zero();
    x.0.0 = [a.w0, a.w1, a.w2, a.w3];
    let q = cosmwasm_bignumber::Decimal256::from_uint256(x);
    Decimal256 { atomics: Uint256 { w0: q.0.0[0], w1: q.0.0[1], w2: q.0.0[2], w3: q.0.0[3] } }
}

impl Uint256 {
    /// The integer 0.
    pub fn zero() -> (r: Uint256)
        ensures
            r@ == 0,
    {
        Uint256 { w0: 0, w1: 0, w2: 0, w3: 0 }
    }

    /// The integer 1.
    pub fn one() -> (r: Uint256)
        ensures
            r@ == 1,
    {
        Uint256 { w0: 1, w1: 0, w2: 0, w3: 0 }
    }

    /// The largest integer, two to the power 256 less one.
    pub fn max_value() -> (r: Uint256)
        ensures
            r@ == max_u256(),
    {
        Uint256 {
            w0: 0xffff_ffff_ffff_ffff,
            w1: 0xffff_ffff_ffff_ffff,
            w2: 0xffff_ffff_ffff_ffff,
            w3: 0xffff_ffff_ffff_ffff,
        }
    }

    /// The integer with the value of `v`.
    pub fn from_u64(v: u64) -> (r: Uint256)
        ensures
            r@ == v,
    {
        Uint256 { w0: v, w1: 0, w2: 0, w3: 0 }
    }

    /// The integer with the value of `v`.
    pub fn from_u128(v: u128) -> (r: Uint256)
        ensures
            r@ == v,
    {
        let low: u128 = v % 0x1_0000_0000_0000_0000u128;
        let high: u128 = v / 0x1_0000_0000_0000_0000u128;
        Uint256 { w0: low as u64, w1: high as u64, w2: 0, w3: 0 }
    }

    /// The value as a `u128`, where it fits in 128 bits.
    pub fn to_u128(&self) -> (r: Option<u128>)
        ensures
            match r {
                Some(v) => v == self@,
                None => self@ > u128::MAX,
            },
    {
        if self.w2 == 0 && self.w3 == 0 {
            let high: u128 = self.w1 as u128;
            let low: u128 = self.w0 as u128;
            Some(high * 0x1_0000_0000_0000_0000u128 + low)
        } else {
            None
        }
    }

    /// Whether the value is 0.
    pub fn is_zero(&self) -> (r: bool)
        ensures
            r == (self@ == 0),
    {
        self.w0 == 0 && self.w1 == 0 && self.w2 == 0 && self.w3 == 0
    }

    /// Whether `self` is less than `other`.
    pub fn lt(&self, other: &Uint256) -> (r: bool)
        ensures
            r == (self@ < other@),
    {
        if self.w3 != other.w3 {
            self.w3 < other.w3
        } else if self.w2 != other.w2 {
            self.w2 < other.w2
        } else if self.w1 != other.w1 {
            self.w1 < other.w1
        } else {
            self.w0 < other.w0
        }
    }

    /// Whether `self` is at most `other`.
    pub fn le(&self, other: &Uint256) -> (r: bool)
        ensures
            r == (self@ <= other@),
    {
        !other.lt(self)
    }

    /// Whether the product of `self` and `other` fits in 256 bits.
    pub fn product_fits(&self, other: &Uint256) -> (r: bool)
        ensures
            r == (self@ * other@ <= max_u256()),
    {
        if other.is_zero() {
            assert(self@ * other@ == 0) by (nonlinear_arith)
                requires
                    other@ == 0,
            ;
            true
        } else {
            let most = multiply_ratio(Uint256::max_value(), Uint256::one(), *other);
            proof {
                lemma_product_bound(self@, other@, max_u256());
            }
            self.le(&most)
        }
    }

    /// The sum of the two integers, or `None` where it exceeds 256 bits.
    pub fn checked_add(self, other: Uint256) -> (r: Option<Uint256>)
        ensures
            holds_value(r, checked_sum(self@, other@)),
    {
        let room = difference_of(Uint256::max_value(), self);
        if other.le(&room) {
            Some(sum_of(self, other))
        } else {
            None
        }
    }

    /// The difference of the two integers, or `None` where `other` is the
    /// larger.
    pub fn checked_sub(self, other: Uint256) -> (r: Option<Uint256>)
        ensures
            holds_value(r, checked_difference(self@, other@)),
    {
        if other.le(&self) {
            Some(difference_of(self, other))
        } else {
            None
        }
    }

    /// The integer times the decimal, rounded down, or `None` where the
    /// product of the integer and the decimal's atomics exceeds 256 bits.
    pub fn checked_mul_decimal(self, d: Decimal256) -> (r: Option<Uint256>)
        ensures
            holds_value(r, checked_ratio(self@, d@, decimal_unit())),
    {
        if self.product_fits(&d.atomics) {
            Some(times_decimal(self, d))
        } else {
            None
        }
    }

    /// The integer divided by the decimal, rounded down, or `None` where
    /// the decimal is zero or the integer times ten to the power 18 exceeds
    /// 256 bits.
    pub fn checked_div_decimal(self, d: Decimal256) -> (r: Option<Uint256>)
        ensures
            holds_value(r, checked_ratio(self@, decimal_unit(), d@)),
    {
        let unit = Decimal256::one();
        if !d.is_zero() && self.product_fits(&unit.atomics) {
            Some(over_decimal(self, d))
        } else {
            None
        }
    }
}

impl Decimal256 {
    /// The decimal 0.0.
    pub fn zero() -> (r: Decimal256)
        ensures
            r@ == 0,
    {
        Decimal256 { atomics: Uint256::zero() }
    }

    /// The decimal 1.0.
    pub fn one() -> (r: Decimal256)
        ensures
            r@ == decimal_unit(),
    {
        Decimal256 { atomics: Uint256::from_u64(1_000_000_000_000_000_000) }
    }

    /// `x` hundredths.
    pub fn percent(x: u64) -> (r: Decimal256)
        ensures
            r@ == x * 10_000_000_000_000_000nat,
    {
        let wide: u128 = x as u128;
        Decimal256 { atomics: Uint256::from_u128(wide * 10_000_000_000_000_000u128) }
    }

    /// `x` thousandths.
    pub fn permille(x: u64) -> (r: Decimal256)
        ensures
            r@ == x * 1_000_000_000_000_000nat,
    {
        let wide: u128 = x as u128;
        Decimal256 { atomics: Uint256::from_u128(wide * 1_000_000_000_000_000u128) }
    }

    /// Whether the value is 0.0.
    pub fn is_zero(&self) -> (r: bool)
        ensures
            r == (self@ == 0),
    {
        self.atomics.is_zero()
    }

    /// Whether `self` is less than `other`.
    pub fn lt(&self, other: &Decimal256) -> (r: bool)
        ensures
            r == (self@ < other@),
    {
        self.atomics.lt(&other.atomics)
    }

    /// Whether `self` is at most `other`.
    pub fn le(&self, other: &Decimal256) -> (r: bool)
        ensures
            r == (self@ <= other@),
    {
        self.atomics.le(&other.atomics)
    }

    /// The smaller of the two decimals.
    pub fn min(self, other: Decimal256) -> (r: Decimal256)
        ensures
            r@ == if self@ <= other@ { self@ } else { other@ },
            r == self || r == other,
    {
        if self.le(&other) {
            self
        } else {
            other
        }
    }

    /// The decimal that stands for the integer `a`, or `None` where `a`
    /// times ten to the power 18 exceeds 256 bits.
    pub fn checked_from_uint256(a: Uint256) -> (r: Option<Decimal256>)
        ensures
            holds_atomics(r, checked_ratio(a@, decimal_unit(), 1)),
    {
        let unit = Decimal256::one();
        if a.product_fits(&unit.atomics) {
            Some(decimal_of(a))
        } else {
            None
        }
    }

    /// The difference of the two decimals, or `None` where `other` is the
    /// larger.
    pub fn checked_sub(self, other: Decimal256) -> (r: Option<Decimal256>)
        ensures
            holds_atomics(r, checked_difference(self@, other@)),
    {
        if other.le(&self) {
            Some(decimal_difference(self, other))
        } else {
            None
        }
    }

    /// The product of the two decimals, rounded down to 18 digits, or `None`
    /// where the product of their atomics exceeds 256 bits.
    pub fn checked_mul(self, other: Decimal256) -> (r: Option<Decimal256>)
        ensures
            holds_atomics(r, checked_ratio(self@, other@, decimal_unit())),
    {
        if self.atomics.product_fits(&other.atomics) {
            Some(decimal_product(self, other))
        } else {
            None
        }
    }

    /// The quotient of the two decimals, rounded down to 18 digits, or
    /// `None` where `other` is zero or the atomics of `self` times ten to
    /// the power 18 exceed 256 bits.
    pub fn checked_div(self, other: Decimal256) -> (r: Option<Decimal256>)
        ensures
            holds_atomics(r, checked_ratio(self@, decimal_unit(), other@)),
    {
        let unit = Decimal256::one();
        if !other.is_zero() && self.atomics.product_fits(&unit.atomics) {
            Some(decimal_quotient(self, other))
        } else {
            None
        }
    }
}

} // verus!
