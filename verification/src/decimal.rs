//! Decimal numbers with eighteen fractional digits in 128 bits, and the
//! ratio arithmetic on amounts that goes with them.
//!
//! The arithmetic is that of `cosmwasm_std::Decimal` and
//! `cosmwasm_std::Uint128`.

use vstd::prelude::*;
use crate::decimal256::{Decimal256, DECIMAL_FRACTIONAL};
use crate::error::PairError;
use crate::uint256::{full_mul, pow2_128, Uint256};

verus! {

/// What `cosmwasm_std::Decimal` reads from a text: the count of atomic units,
/// or nothing where it rejects the text.
pub uninterp spec fn decimal_parse(text: Seq<char>) -> Option<u128>;

/// A non-negative decimal number of eighteen fractional digits, held as its
/// count of atomic units.
#[derive(Clone, Copy, Debug, PartialEq, Eq, Structural)]
pub struct Decimal {
    pub atomics: u128,
}

/// `cosmwasm_std::Uint128::multiply_ratio`: the value times the numerator,
/// taken in full width, divided by the denominator and rounded down. It
/// panics on a zero denominator and when the quotient does not fit in 128
/// bits; `requires` leaves both out.
#[verifier::external_body]
fn multiply_ratio_outside(value: u128, numerator: u128, denominator: u128) -> (r: u128)
    requires
        denominator != 0,
        (value as nat * numerator as nat) / (denominator as nat) <= u128::MAX,
    ensures
        r == (value as nat * numerator as nat) / (denominator as nat),
{
    cosmwasm_std::Uint128::new(value).multiply_ratio(numerator, denominator).u128()
}

/// `cosmwasm_std::Decimal::from_str`: the decimal that the text denotes, by
/// its count of atomic units, or nothing where the text is rejected. The
/// result depends on the text alone.
#[verifier::external_body]
fn parse_outside(text: &str) -> (r: Option<Decimal>)
    ensures
        decimal_parse(text@) == (match r {
            Some(d) => Some(d.atomics),
            None => None,
        }),
{
    match <cosmwasm_std::Decimal as std::str::FromStr>::from_str(text) {
        Ok(d) => Some(Decimal { atomics: cosmwasm_std::Fraction::numerator(&d) }),
        Err(_) => None,
    }
}

/// The outcome of `value * numerator / denominator` on 128-bit integers.
pub open spec fn spec_multiply_ratio(value: u128, numerator: u128, denominator: u128) -> Result<
    u128,
    PairError,
> {
    if denominator == 0 || (value as nat * numerator as nat) / (denominator as nat) > u128::MAX {
        Err(PairError::Arithmetic)
    } else {
        Ok(((value as nat * numerator as nat) / (denominator as nat)) as u128)
    }
}

/// A quotient stays below two to the power 128 exactly when the upper half
/// of the dividend stays below the divisor.
pub proof fn lemma_quotient_fits(product: nat, denominator: nat)
    requires
        denominator > 0,
    ensures
        (product / denominator <= u128::MAX) == (product / pow2_128() < denominator),
{
    let p = pow2_128() as int;
    let x = product as int;
    let d = denominator as int;
    assert(p == u128::MAX + 1);
    vstd::arithmetic::div_mod::lemma_fundamental_div_mod(x, d);
    vstd::arithmetic::div_mod::lemma_fundamental_div_mod(x, p);
    let q = x / d;
    let h = x / p;
    assert(0 <= x % d < d);
    assert(0 <= x % p < p);
    if h < d {
        // x < (h + 1) * p <= d * p, so q < p
        assert(x < d * p) by (nonlinear_arith)
            requires
                x == p * h + x % p,
                x % p < p,
                h + 1 <= d,
                p > 0,
        ;
        assert(q < p) by (nonlinear_arith)
            requires
                x == d * q + x % d,
                0 <= x % d,
                x < d * p,
                d > 0,
        ;
    } else {
        assert(x >= d * p) by (nonlinear_arith)
            requires
                x == p * h + x % p,
                0 <= x % p,
                h >= d,
                p > 0,
        ;
        assert(q >= p) by (nonlinear_arith)
            requires
                x == d * q + x % d,
                x % d < d,
                x >= d * p,
                d > 0,
        ;
    }
}

/// `value * numerator / denominator`, with the product taken in full width
/// and the quotient rounded down; an arithmetic error exactly when the
/// denominator is zero or the quotient does not fit in 128 bits.
pub fn multiply_ratio(value: u128, numerator: u128, denominator: u128) -> (r: Result<
    u128,
    PairError,
>)
    ensures
        r == spec_multiply_ratio(value, numerator, denominator),
{
    if denominator == 0 {
        return Err(PairError::Arithmetic);
    }
    let product: Uint256 = full_mul(value, numerator);
    proof {
        lemma_quotient_fits(product@, denominator as nat);
    }
    if product.high() < denominator {
        Ok(multiply_ratio_outside(value, numerator, denominator))
    } else {
        Err(PairError::Arithmetic)
    }
}

/// The outcome of multiplying an amount by a decimal.
pub open spec fn spec_mul_decimal(amount: u128, atomics: u128) -> Result<u128, PairError> {
    spec_multiply_ratio(amount, atomics, DECIMAL_FRACTIONAL)
}

impl Decimal {
    /// The number one.
    pub fn one() -> (r: Decimal)
        ensures
            r.atomics == DECIMAL_FRACTIONAL,
    {
        Decimal { atomics: DECIMAL_FRACTIONAL }
    }

    /// The number zero.
    pub fn zero() -> (r: Decimal)
        ensures
            r.atomics == 0,
    {
        Decimal { atomics: 0 }
    }

    /// So many hundredths.
    pub fn percent(x: u64) -> (r: Decimal)
        ensures
            r.atomics == x * 10_000_000_000_000_000,
    {
        assert(x * 10_000_000_000_000_000 <= 0xFFFF_FFFF_FFFF_FFFF * 10_000_000_000_000_000)
            by (nonlinear_arith)
            requires
                x <= 0xFFFF_FFFF_FFFF_FFFF,
        ;
        Decimal { atomics: (x as u128) * 10_000_000_000_000_000u128 }
    }

    /// So many thousandths.
    pub fn permille(x: u64) -> (r: Decimal)
        ensures
            r.atomics == x * 1_000_000_000_000_000,
    {
        assert(x * 1_000_000_000_000_000 <= 0xFFFF_FFFF_FFFF_FFFF * 1_000_000_000_000_000)
            by (nonlinear_arith)
            requires
                x <= 0xFFFF_FFFF_FFFF_FFFF,
        ;
        Decimal { atomics: (x as u128) * 1_000_000_000_000_000u128 }
    }

    /// The quotient of two integers, rounded down to eighteen digits; an
    /// arithmetic error exactly when the denominator is zero or the quotient
    /// is too large for the type.
    pub fn from_ratio(numerator: u128, denominator: u128) -> (r: Result<Decimal, PairError>)
        ensures
            (match r {
                Ok(d) => Ok(d.atomics),
                Err(e) => Err(e),
            }) == spec_multiply_ratio(numerator, DECIMAL_FRACTIONAL, denominator),
    {
        match multiply_ratio(numerator, DECIMAL_FRACTIONAL, denominator) {
            Ok(atomics) => Ok(Decimal { atomics }),
            Err(e) => Err(e),
        }
    }

    /// The decimal that a text denotes, if it denotes one.
    pub fn parse(text: &str) -> (r: Option<Decimal>)
        ensures
            decimal_parse(text@) == (match r {
                Some(d) => Some(d.atomics),
                None => None,
            }),
    {
        parse_outside(text)
    }

    /// Whether the number is zero.
    pub fn is_zero(&self) -> (r: bool)
        ensures
            r == (self.atomics == 0),
    {
        self.atomics == 0
    }

    /// The same number in 256 bits.
    pub fn widen(&self) -> (r: Decimal256)
        ensures
            r@ == self.atomics,
    {
        Decimal256::from_atomics(Uint256::from_u128(self.atomics))
    }

    /// The product of an amount and this number, rounded down; an arithmetic
    /// error exactly when the product does not fit in 128 bits.
    pub fn mul_amount(&self, amount: u128) -> (r: Result<u128, PairError>)
        ensures
            r == spec_mul_decimal(amount, self.atomics),
    {
        multiply_ratio(amount, self.atomics, DECIMAL_FRACTIONAL)
    }
}

impl Decimal256 {
    /// The same number in 128 bits, if it is small enough.
    pub fn narrow(&self) -> (r: Option<Decimal>)
        ensures
            r == (if self@ <= u128::MAX {
                Some(Decimal { atomics: self@ as u128 })
            } else {
                None
            }),
    {
        match self.atomics().to_u128() {
            Some(atomics) => Some(Decimal { atomics }),
            None => None,
        }
    }
}

} // verus!
