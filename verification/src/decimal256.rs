//! Decimal numbers with eighteen fractional digits in 256 bits.
//!
//! A value is held as its count of atomic units, so that one whole is
//! `DECIMAL_FRACTIONAL` units. The arithmetic is that of
//! `cosmwasm_bignumber::Decimal256`.

use vstd::prelude::*;
use crate::error::PairError;
use crate::uint256::{full_mul, limbs_value, pow2_128, pow2_256, Uint256};

verus! {

/// The number of atomic units in one whole.
pub const DECIMAL_FRACTIONAL: u128 = 1_000_000_000_000_000_000u128;

/// The number of atomic units in one whole, as a mathematical integer.
pub open spec fn decimal_fractional() -> nat {
    1_000_000_000_000_000_000
}

/// The text that `cosmwasm_bignumber::Decimal256` prints for the decimal of
/// `atomics` atomic units.
pub uninterp spec fn decimal256_text(atomics: nat) -> Seq<char>;

/// A non-negative decimal number of eighteen fractional digits.
#[derive(Clone, Copy, Debug)]
pub struct Decimal256 {
    pub limbs: [u64; 4],
}

impl View for Decimal256 {
    type V = nat;

    /// The count of atomic units.
    open spec fn view(&self) -> nat {
        limbs_value(self.limbs)
    }
}

/// `cosmwasm_bignumber::Decimal256::from_ratio` on two 128-bit integers: the
/// quotient of the numerator times `DECIMAL_FRACTIONAL` by the denominator,
/// rounded down. It panics on a zero denominator, which `requires` leaves out.
#[verifier::external_body]
fn ratio_outside(numerator: u128, denominator: u128) -> (r: Decimal256)
    requires
        denominator != 0,
    ensures
        r@ == (numerator as nat * decimal_fractional()) / (denominator as nat),
{
    let n = cosmwasm_bignumber::Uint256::from(numerator);
    let d = cosmwasm_bignumber::Uint256::from(denominator);
    Decimal256 { limbs: cosmwasm_bignumber::Decimal256::from_ratio(n, d).0.0 }
}

/// Addition of `cosmwasm_bignumber::Decimal256`, which panics when the sum
/// does not fit in 256 bits.
#[verifier::external_body]
fn add_outside(a: &Decimal256, b: &Decimal256) -> (r: Decimal256)
    requires
        a@ + b@ < pow2_256(),
    ensures
        r@ == a@ + b@,
{
    let mut x = cosmwasm_bignumber::Decimal256::zero();
    x.0.0 = a.limbs;
    let mut y = cosmwasm_bignumber::Decimal256::zero();
    y.0.0 = b.limbs;
    Decimal256 { limbs: (x + y).0.0 }
}

/// Subtraction of `cosmwasm_bignumber::Decimal256`, which panics when the
/// right side is the larger.
#[verifier::external_body]
fn sub_outside(a: &Decimal256, b: &Decimal256) -> (r: Decimal256)
    requires
        a@ >= b@,
    ensures
        r@ == a@ - b@,
{
    let mut x = cosmwasm_bignumber::Decimal256::zero();
    x.0.0 = a.limbs;
    let mut y = cosmwasm_bignumber::Decimal256::zero();
    y.0.0 = b.limbs;
    Decimal256 { limbs: (x - y).0.0 }
}

/// Multiplication of `cosmwasm_bignumber::Decimal256`: the product of the
/// atomic counts divided by `DECIMAL_FRACTIONAL`, rounded down. It panics
/// when the product of the counts does not fit in 256 bits.
#[verifier::external_body]
fn mul_outside(a: &Decimal256, b: &Decimal256) -> (r: Decimal256)
    requires
        a@ * b@ < pow2_256(),
    ensures
        r@ == (a@ * b@) / decimal_fractional(),
{
    let mut x = cosmwasm_bignumber::Decimal256::zero();
    x.0.0 = a.limbs;
    let mut y = cosmwasm_bignumber::Decimal256::zero();
    y.0.0 = b.limbs;
    Decimal256 { limbs: (x * y).0.0 }
}

/// Division of `cosmwasm_bignumber::Decimal256`: the left count times
/// `DECIMAL_FRACTIONAL` divided by the right count, rounded down. It panics
/// on a zero divisor and when the scaled left count does not fit in 256 bits.
#[verifier::external_body]
fn div_outside(a: &Decimal256, b: &Decimal256) -> (r: Decimal256)
    requires
        b@ != 0,
        a@ * decimal_fractional() < pow2_256(),
    ensures
        r@ == (a@ * decimal_fractional()) / b@,
{
    let mut x = cosmwasm_bignumber::Decimal256::zero();
    x.0.0 = a.limbs;
    let mut y = cosmwasm_bignumber::Decimal256::zero();
    y.0.0 = b.limbs;
    Decimal256 { limbs: (x / y).0.0 }
}

/// The product of a `cosmwasm_bignumber::Decimal256` and a
/// `cosmwasm_bignumber::Uint256` made of a 128-bit integer: the atomic count
/// times the integer, divided by `DECIMAL_FRACTIONAL` and rounded down. It
/// panics when the count times the integer does not fit in 256 bits.
#[verifier::external_body]
fn mul_uint_outside(a: &Decimal256, factor: u128) -> (r: Uint256)
    requires
        a@ * (factor as nat) < pow2_256(),
    ensures
        r@ == (a@ * (factor as nat)) / decimal_fractional(),
{
    let mut x = cosmwasm_bignumber::Decimal256::zero();
    x.0.0 = a.limbs;
    Uint256 { limbs: (x * cosmwasm_bignumber::Uint256::from(factor)).0.0 }
}

/// The `Display` text of `cosmwasm_bignumber::Decimal256`, which depends on
/// the atomic count alone.
#[verifier::external_body]
fn text_outside(a: &Decimal256) -> (r: String)
    ensures
        r@ == decimal256_text(a@),
{
    let mut x = cosmwasm_bignumber::Decimal256::zero();
    x.0.0 = a.limbs;
    x.to_string()
}

impl Decimal256 {
    /// The decimal of the given 256-bit count of atomic units.
    pub fn from_atomics(atomics: Uint256) -> (r: Decimal256)
        ensures
            r@ == atomics@,
    {
        Decimal256 { limbs: atomics.limbs }
    }

    /// The count of atomic units.
    pub fn atomics(&self) -> (r: Uint256)
        ensures
            r@ == self@,
    {
        Uint256 { limbs: self.limbs }
    }

    /// The number one.
    pub fn one() -> (r: Decimal256)
        ensures
            r@ == decimal_fractional(),
    {
        Decimal256::from_atomics(Uint256::from_u128(DECIMAL_FRACTIONAL))
    }

    /// The number zero.
    pub fn zero() -> (r: Decimal256)
        ensures
            r@ == 0,
    {
        Decimal256::from_atomics(Uint256::from_u128(0))
    }

    /// Whether the number is zero.
    pub fn is_zero(&self) -> (r: bool)
        ensures
            r == (self@ == 0),
    {
        self.atomics().is_zero()
    }

    /// The given number of wholes.
    pub fn from_uint(value: u128) -> (r: Decimal256)
        ensures
            r@ == value as nat * decimal_fractional(),
    {
        Decimal256::from_atomics(full_mul(value, DECIMAL_FRACTIONAL))
    }

    /// The quotient of two integers, rounded down to eighteen digits; an
    /// arithmetic error exactly when the denominator is zero.
    pub fn from_ratio(numerator: u128, denominator: u128) -> (r: Result<Decimal256, PairError>)
        ensures
            denominator == 0 ==> r == Err::<Decimal256, PairError>(PairError::Arithmetic),
            denominator != 0 ==> r is Ok && r->Ok_0@ == (numerator as nat * decimal_fractional())
                / (denominator as nat),
    {
        if denominator == 0 {
            Err(PairError::Arithmetic)
        } else {
            Ok(ratio_outside(numerator, denominator))
        }
    }

    /// Whether this number is the larger.
    pub fn gt(&self, other: &Decimal256) -> (r: bool)
        ensures
            r == (self@ > other@),
    {
        let high = self.atomics().high();
        let low = self.atomics().low();
        let other_high = other.atomics().high();
        let other_low = other.atomics().low();
        proof {
            let p = pow2_128() as int;
            vstd::arithmetic::div_mod::lemma_fundamental_div_mod(self@ as int, p);
            vstd::arithmetic::div_mod::lemma_fundamental_div_mod(other@ as int, p);
            let h = (self@ / pow2_128()) as int;
            let k = (other@ / pow2_128()) as int;
            assert(0 <= self@ % pow2_128() < p && 0 <= other@ % pow2_128() < p);
            if h > k {
                assert(p * h >= p * k + p) by (nonlinear_arith)
                    requires
                        h >= k + 1,
                        p > 0,
                ;
            }
            if h < k {
                assert(p * k >= p * h + p) by (nonlinear_arith)
                    requires
                        k >= h + 1,
                        p > 0,
                ;
            }
        }
        high > other_high || (high == other_high && low > other_low)
    }

    /// The sum; the caller shows that it fits in 256 bits.
    pub(crate) fn add(&self, other: &Decimal256) -> (r: Decimal256)
        requires
            self@ + other@ < pow2_256(),
        ensures
            r@ == self@ + other@,
    {
        add_outside(self, other)
    }

    /// The difference; the caller shows that it is not negative.
    pub(crate) fn sub(&self, other: &Decimal256) -> (r: Decimal256)
        requires
            self@ >= other@,
        ensures
            r@ == self@ - other@,
    {
        sub_outside(self, other)
    }

    /// The product, rounded down; the caller shows that the product of the
    /// atomic counts fits in 256 bits.
    pub(crate) fn mul(&self, other: &Decimal256) -> (r: Decimal256)
        requires
            self@ * other@ < pow2_256(),
        ensures
            r@ == (self@ * other@) / decimal_fractional(),
    {
        mul_outside(self, other)
    }

    /// The quotient, rounded down to eighteen digits; an arithmetic error
    /// exactly when the divisor is zero or this number, scaled to take the
    /// division, leaves 256 bits.
    pub fn checked_div(&self, other: &Decimal256) -> (r: Result<Decimal256, PairError>)
        ensures
            decimal_outcome(r) == spec_checked_div(self@, other@),
    {
        if other.is_zero() || !self.atomics().mul_fits(DECIMAL_FRACTIONAL) {
            Err(PairError::Arithmetic)
        } else {
            Ok(div_outside(self, other))
        }
    }

    /// The product with an integer, rounded down to an integer; an
    /// arithmetic error exactly when the atomic count times the integer
    /// leaves 256 bits.
    pub fn checked_mul_uint(&self, factor: u128) -> (r: Result<Uint256, PairError>)
        ensures
            self@ * (factor as nat) >= pow2_256() ==> r == Err::<Uint256, PairError>(PairError::Arithmetic),
            self@ * (factor as nat) < pow2_256() ==> r is Ok && r->Ok_0@ == (self@ * (factor as nat))
                / decimal_fractional(),
    {
        if !self.atomics().mul_fits(factor) {
            Err(PairError::Arithmetic)
        } else {
            Ok(mul_uint_outside(self, factor))
        }
    }

    /// The number in decimal notation.
    pub fn to_text(&self) -> (r: String)
        ensures
            r@ == decimal256_text(self@),
    {
        text_outside(self)
    }
}

/// The outcome of a division of two decimals, by their atomic counts.
pub open spec fn spec_checked_div(a: nat, b: nat) -> Result<nat, PairError> {
    if b == 0 || a * decimal_fractional() >= pow2_256() {
        Err(PairError::Arithmetic)
    } else {
        Ok((a * decimal_fractional()) / b)
    }
}

/// A decimal result by its atomic count.
pub open spec fn decimal_outcome(r: Result<Decimal256, PairError>) -> Result<nat, PairError> {
    match r {
        Ok(d) => Ok(d@),
        Err(e) => Err(e),
    }
}

} // verus!
