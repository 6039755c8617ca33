//! Signed binary fixed-point numbers with 64 integer and 64 fractional bits.
//!
//! A value is held as its bit pattern, so that the number is the pattern
//! divided by two to the power 64. The arithmetic is that of
//! `substrate_fixed::types::I64F64`.

use vstd::prelude::*;

verus! {

/// The bit pattern of the number one.
pub const FIXED_ONE_BITS: i128 = 0x1_0000_0000_0000_0000i128;

/// The largest magnitude, as a bit pattern, of an exponent that `pow` takes:
/// two to the power 57.
pub const FIXED_MAX_EXPONENT_BITS: i128 = 0x200_0000_0000_0000_0000_0000_0000_0000i128;

/// What `substrate_fixed::types::I64F64` reads from a text: the bit pattern
/// of the nearest number, or nothing where it rejects the text or the number
/// is out of range.
pub uninterp spec fn fixed_parse(text: Seq<char>) -> Option<i128>;

/// What `substrate_fixed::transcendental::pow` computes from the bit
/// patterns of a positive base and an exponent that is neither zero nor one:
/// the bit pattern of the power, or nothing where it gives up.
pub uninterp spec fn fixed_pow_general(base: i128, exponent: i128) -> Option<i128>;

/// The power of a positive base, both by their bit patterns. A zero exponent
/// gives one and the exponent one gives the base itself; every other power
/// comes from the series and the logarithm of the outside function.
pub open spec fn fixed_pow_result(base: i128, exponent: i128) -> Option<i128> {
    if exponent == 0 {
        Some(FIXED_ONE_BITS)
    } else if exponent == FIXED_ONE_BITS {
        Some(base)
    } else {
        fixed_pow_general(base, exponent)
    }
}

/// The bases and exponents, by their bit patterns, on which the power is
/// taken. The base is positive. Outside the two plain cases the base must
/// not be so small that its inverse leaves the type, and the exponent must
/// be small enough that its product with a logarithm stays inside the type.
pub open spec fn fixed_pow_defined(base: i128, exponent: i128) -> bool {
    base > 0 && (exponent == 0 || exponent == FIXED_ONE_BITS || (base >= 3
        && -FIXED_MAX_EXPONENT_BITS <= exponent <= FIXED_MAX_EXPONENT_BITS))
}

/// A fixed-point number.
#[derive(Clone, Copy, Debug, PartialEq, Eq, Structural)]
pub struct FixedFloat {
    pub bits: i128,
}

/// The product of two bit patterns as a bit pattern: the full product
/// divided by two to the power 64 and rounded down, if that fits.
pub open spec fn spec_fixed_mul(a: i128, b: i128) -> Option<i128> {
    let q = (a as int * b as int) / (FIXED_ONE_BITS as int);
    if i128::MIN <= q <= i128::MAX {
        Some(q as i128)
    } else {
        None
    }
}

/// `from_str` of `substrate_fixed::types::I64F64`: the number nearest to
/// the decimal text, by its bit pattern, or nothing where the text is
/// rejected. The result depends on the text alone.
#[verifier::external_body]
fn parse_outside(text: &str) -> (r: Option<FixedFloat>)
    ensures
        fixed_parse(text@) == (match r {
            Some(f) => Some(f.bits),
            None => None,
        }),
{
    match <substrate_fixed::types::I64F64 as std::str::FromStr>::from_str(text) {
        Ok(f) => Some(FixedFloat { bits: f.to_bits() }),
        Err(_) => None,
    }
}

/// `substrate_fixed::transcendental::pow` on two `I64F64` numbers, the base
/// positive. It returns one for a zero exponent, else the base for the
/// exponent one, and else the exponential of the exponent times the
/// logarithm of the base, or an error. On a base of one or two units it
/// panics while inverting the base, and a large exponent can overflow an
/// unchecked sum; `requires` leaves those out.
#[verifier::external_body]
fn pow_outside(base: FixedFloat, exponent: FixedFloat) -> (r: Option<FixedFloat>)
    requires
        fixed_pow_defined(base.bits, exponent.bits),
    ensures
        (match r {
            Some(f) => Some(f.bits),
            None => None,
        }) == (if exponent.bits == 0 {
            Some(FIXED_ONE_BITS)
        } else if exponent.bits == FIXED_ONE_BITS {
            Some(base.bits)
        } else {
            fixed_pow_general(base.bits, exponent.bits)
        }),
{
    let b = substrate_fixed::types::I64F64::from_bits(base.bits);
    let e = substrate_fixed::types::I64F64::from_bits(exponent.bits);
    let p: Result<substrate_fixed::types::I64F64, ()> = substrate_fixed::transcendental::pow(b, e);
    match p {
        Ok(f) => Some(FixedFloat { bits: f.to_bits() }),
        Err(_) => None,
    }
}

/// `checked_mul` of `substrate_fixed::types::I64F64`: the full product of
/// the bit patterns shifted right by 64 bits, or nothing where that does not
/// fit in 128 bits. With two negative factors the outside function can fail
/// an assertion of its own on a carry below zero, in builds that check such
/// assertions; `requires` leaves those pairs out.
#[verifier::external_body]
fn checked_mul_outside(a: FixedFloat, b: FixedFloat) -> (r: Option<FixedFloat>)
    requires
        a.bits >= 0 || b.bits >= 0,
    ensures
        spec_fixed_mul(a.bits, b.bits) == (match r {
            Some(f) => Some(f.bits),
            None => None,
        }),
{
    let x = substrate_fixed::types::I64F64::from_bits(a.bits);
    let y = substrate_fixed::types::I64F64::from_bits(b.bits);
    match x.checked_mul(y) {
        Some(f) => Some(FixedFloat { bits: f.to_bits() }),
        None => None,
    }
}

/// The product of the least bit pattern and a negative one: two to the
/// power 63 times the magnitude of the second, which fits exactly when that
/// magnitude is below two to the power 64.
proof fn lemma_mul_least(x: i128)
    requires
        x < 0,
    ensures
        spec_fixed_mul(i128::MIN, x) == (if x > -FIXED_ONE_BITS {
            Some(((-x) * 0x8000_0000_0000_0000) as i128)
        } else {
            None
        }),
        spec_fixed_mul(x, i128::MIN) == spec_fixed_mul(i128::MIN, x),
{
    let one = FIXED_ONE_BITS as int;
    let half = 0x8000_0000_0000_0000int;
    let m = -(x as int);
    assert(i128::MIN as int * x as int == one * (half * m)) by (nonlinear_arith)
        requires
            i128::MIN as int == -(one * half),
            m == -(x as int),
    ;
    assert(x as int * i128::MIN as int == i128::MIN as int * x as int) by (nonlinear_arith);
    vstd::arithmetic::div_mod::lemma_div_multiples_vanish(half * m, one);
    if x > -FIXED_ONE_BITS {
        assert(half * m <= half * (one - 1)) by (nonlinear_arith)
            requires
                1 <= m <= one - 1,
                half > 0,
        ;
        assert(half * m >= 0) by (nonlinear_arith)
            requires
                m >= 1,
                half > 0,
        ;
    } else {
        assert(half * m >= half * one) by (nonlinear_arith)
            requires
                m >= one,
                half > 0,
        ;
    }
}

impl FixedFloat {
    /// The number one.
    pub fn one() -> (r: FixedFloat)
        ensures
            r.bits == FIXED_ONE_BITS,
    {
        FixedFloat { bits: FIXED_ONE_BITS }
    }

    /// The given integer, if it is below two to the power 63.
    pub fn from_num(value: u128) -> (r: Option<FixedFloat>)
        ensures
            r == spec_from_num(value),
    {
        if value < 0x8000_0000_0000_0000u128 {
            assert(value * 0x1_0000_0000_0000_0000 < 0x8000_0000_0000_0000
                * 0x1_0000_0000_0000_0000) by (nonlinear_arith)
                requires
                    value < 0x8000_0000_0000_0000,
            ;
            Some(FixedFloat { bits: (value as i128) * FIXED_ONE_BITS })
        } else {
            None
        }
    }

    /// The integer part, rounded down, if the number is not negative.
    pub fn to_num(&self) -> (r: Option<u128>)
        ensures
            r == spec_to_num(self.bits),
    {
        if self.bits < 0 {
            None
        } else {
            Some((self.bits / FIXED_ONE_BITS) as u128)
        }
    }

    /// The difference, if it fits.
    pub fn checked_sub(&self, other: FixedFloat) -> (r: Option<FixedFloat>)
        ensures
            r == spec_fixed_sub(self.bits, other.bits),
    {
        match self.bits.checked_sub(other.bits) {
            Some(bits) => Some(FixedFloat { bits }),
            None => None,
        }
    }

    /// The product, rounded down to a multiple of two to the power -64, if
    /// it fits. Two negative factors are multiplied as their magnitudes,
    /// which have the same product.
    pub fn checked_mul(&self, other: FixedFloat) -> (r: Option<FixedFloat>)
        ensures
            spec_fixed_mul(self.bits, other.bits) == (match r {
                Some(f) => Some(f.bits),
                None => None,
            }),
    {
        if self.bits >= 0 || other.bits >= 0 {
            checked_mul_outside(*self, other)
        } else if self.bits == i128::MIN || other.bits == i128::MIN {
            let factor: i128 = if self.bits == i128::MIN {
                other.bits
            } else {
                self.bits
            };
            proof {
                lemma_mul_least(factor);
            }
            if factor > -FIXED_ONE_BITS {
                assert((-factor) * 0x8000_0000_0000_0000 <= 0xFFFF_FFFF_FFFF_FFFF
                    * 0x8000_0000_0000_0000) by (nonlinear_arith)
                    requires
                        0 < -factor <= 0xFFFF_FFFF_FFFF_FFFF,
                ;
                Some(FixedFloat { bits: (-factor) * 0x8000_0000_0000_0000i128 })
            } else {
                None
            }
        } else {
            assert((-self.bits) * (-other.bits) == self.bits * other.bits) by (nonlinear_arith);
            checked_mul_outside(FixedFloat { bits: -self.bits }, FixedFloat { bits: -other.bits })
        }
    }

    /// The number nearest to a decimal text, if the text denotes a number in
    /// range.
    pub fn parse(text: &str) -> (r: Option<FixedFloat>)
        ensures
            fixed_parse(text@) == (match r {
                Some(f) => Some(f.bits),
                None => None,
            }),
    {
        parse_outside(text)
    }

    /// This number raised to a power; nothing where the number is not
    /// positive, the pair lies outside the reach of the power function, or
    /// the function gives up.
    pub fn pow(&self, exponent: FixedFloat) -> (r: Option<FixedFloat>)
        ensures
            r == spec_pow(self.bits, exponent.bits),
    {
        if self.bits > 0 && (exponent.bits == 0 || exponent.bits == FIXED_ONE_BITS || (self.bits
            >= 3 && -FIXED_MAX_EXPONENT_BITS <= exponent.bits && exponent.bits
            <= FIXED_MAX_EXPONENT_BITS)) {
            pow_outside(*self, exponent)
        } else {
            None
        }
    }
}

/// The fixed-point number of an integer.
pub open spec fn spec_from_num(value: u128) -> Option<FixedFloat> {
    if value < 0x8000_0000_0000_0000 {
        Some(FixedFloat { bits: (value * FIXED_ONE_BITS) as i128 })
    } else {
        None
    }
}

/// The integer part of a bit pattern.
pub open spec fn spec_to_num(bits: i128) -> Option<u128> {
    if bits < 0 {
        None
    } else {
        Some((bits / FIXED_ONE_BITS) as u128)
    }
}

/// The difference of two bit patterns.
pub open spec fn spec_fixed_sub(a: i128, b: i128) -> Option<FixedFloat> {
    if i128::MIN <= a - b <= i128::MAX {
        Some(FixedFloat { bits: (a - b) as i128 })
    } else {
        None
    }
}

/// The power of two bit patterns, where it is taken.
pub open spec fn spec_pow(base: i128, exponent: i128) -> Option<FixedFloat> {
    if fixed_pow_defined(base, exponent) {
        match fixed_pow_result(base, exponent) {
            Some(bits) => Some(FixedFloat { bits }),
            None => None,
        }
    } else {
        None
    }
}

/// Raising a positive number to the power one changes nothing.
pub proof fn lemma_pow_one(base: i128)
    requires
        base > 0,
    ensures
        spec_pow(base, FIXED_ONE_BITS) == Some(FixedFloat { bits: base }),
{
}

} // verus!
