//! Unsigned 256-bit integers as four 64-bit limbs, least significant first.

use vstd::prelude::*;

verus! {

/// Two to the power 64.
pub open spec fn pow2_64() -> nat {
    0x1_0000_0000_0000_0000
}

/// Two to the power 128.
pub open spec fn pow2_128() -> nat {
    pow2_64() * pow2_64()
}

/// Two to the power 256.
pub open spec fn pow2_256() -> nat {
    pow2_128() * pow2_128()
}

/// The number that four limbs stand for.
pub open spec fn limbs_value(limbs: [u64; 4]) -> nat {
    limbs[0] as nat + limbs[1] as nat * pow2_64() + limbs[2] as nat * pow2_128() + limbs[3] as nat
        * pow2_64() * pow2_128()
}

/// An unsigned integer below two to the power 256.
#[derive(Clone, Copy, Debug)]
pub struct Uint256 {
    pub limbs: [u64; 4],
}

impl View for Uint256 {
    type V = nat;

    open spec fn view(&self) -> nat {
        limbs_value(self.limbs)
    }
}

/// Every value of four limbs is below two to the power 256.
pub proof fn lemma_limbs_value_bound(limbs: [u64; 4])
    ensures
        limbs_value(limbs) < pow2_256(),
{
    let p: nat = pow2_64();
    assert(limbs[0] as nat <= p - 1);
    assert(limbs[1] as nat * p <= (p - 1) * p) by (nonlinear_arith)
        requires
            limbs[1] as nat <= p - 1,
    ;
    assert(limbs[2] as nat * (p * p) <= (p - 1) * (p * p)) by (nonlinear_arith)
        requires
            limbs[2] as nat <= p - 1,
    ;
    assert(limbs[3] as nat * p * (p * p) <= (p - 1) * p * (p * p)) by (nonlinear_arith)
        requires
            limbs[3] as nat <= p - 1,
    ;
    assert((p * p) * (p * p) == (p - 1) * p * (p * p) + (p - 1) * (p * p) + (p - 1) * p + p)
        by (nonlinear_arith);
}

impl Uint256 {
    /// Widens a 128-bit integer.
    pub fn from_u128(value: u128) -> (r: Uint256)
        ensures
            r@ == value,
    {
        assert(value == (value & 0xFFFF_FFFF_FFFF_FFFF) + (value >> 64) * 0x1_0000_0000_0000_0000
            && (value & 0xFFFF_FFFF_FFFF_FFFF) < 0x1_0000_0000_0000_0000 && (value >> 64)
            < 0x1_0000_0000_0000_0000) by (bit_vector);
        let low: u64 = (value & 0xFFFF_FFFF_FFFF_FFFF) as u64;
        let high: u64 = (value >> 64) as u64;
        let limbs: [u64; 4] = [low, high, 0, 0];
        assert(limbs[0] == low && limbs[1] == high && limbs[2] == 0 && limbs[3] == 0);
        Uint256 { limbs }
    }

    /// The value as a 128-bit integer, if it is small enough.
    pub fn to_u128(&self) -> (r: Option<u128>)
        ensures
            r == (if self@ <= u128::MAX {
                Some(self@ as u128)
            } else {
                None
            }),
    {
        if self.limbs[2] != 0 || self.limbs[3] != 0 {
            proof {
                let p: nat = pow2_64();
                if self.limbs[2] != 0 {
                    assert(self.limbs[2] as nat * (p * p) >= p * p) by (nonlinear_arith)
                        requires
                            self.limbs[2] as nat >= 1,
                    ;
                } else {
                    assert(self.limbs[3] as nat * p * (p * p) >= p * p) by (nonlinear_arith)
                        requires
                            self.limbs[3] as nat >= 1,
                            p >= 1,
                    ;
                }
            }
            None
        } else {
            let low: u128 = self.limbs[0] as u128;
            let high: u128 = self.limbs[1] as u128;
            assert(high * 0x1_0000_0000_0000_0000 <= 0xFFFF_FFFF_FFFF_FFFF
                * 0x1_0000_0000_0000_0000) by (nonlinear_arith)
                requires
                    high <= 0xFFFF_FFFF_FFFF_FFFF,
            ;
            Some(high * 0x1_0000_0000_0000_0000 + low)
        }
    }

    /// The low 128 bits.
    pub fn low(&self) -> (r: u128)
        ensures
            r == self@ % pow2_128(),
    {
        let low: u128 = self.limbs[0] as u128;
        let high: u128 = self.limbs[1] as u128;
        assert(high * 0x1_0000_0000_0000_0000 <= 0xFFFF_FFFF_FFFF_FFFF
            * 0x1_0000_0000_0000_0000) by (nonlinear_arith)
            requires
                high <= 0xFFFF_FFFF_FFFF_FFFF,
        ;
        let r: u128 = high * 0x1_0000_0000_0000_0000 + low;
        proof {
            lemma_split(self.limbs);
        }
        r
    }

    /// The high 128 bits.
    pub fn high(&self) -> (r: u128)
        ensures
            r == self@ / pow2_128(),
    {
        let low: u128 = self.limbs[2] as u128;
        let high: u128 = self.limbs[3] as u128;
        assert(high * 0x1_0000_0000_0000_0000 <= 0xFFFF_FFFF_FFFF_FFFF
            * 0x1_0000_0000_0000_0000) by (nonlinear_arith)
            requires
                high <= 0xFFFF_FFFF_FFFF_FFFF,
        ;
        let r: u128 = high * 0x1_0000_0000_0000_0000 + low;
        proof {
            lemma_split(self.limbs);
        }
        r
    }

    /// Whether the value is zero.
    pub fn is_zero(&self) -> (r: bool)
        ensures
            r == (self@ == 0),
    {
        proof {
            lemma_split(self.limbs);
        }
        self.limbs[0] == 0 && self.limbs[1] == 0 && self.limbs[2] == 0 && self.limbs[3] == 0
    }

    /// Whether the product with a 128-bit integer still fits in 256 bits.
    pub fn mul_fits(&self, factor: u128) -> (r: bool)
        ensures
            r == (self@ * factor < pow2_256()),
    {
        let high_part = full_mul(self.high(), factor);
        let low_part = full_mul(self.low(), factor);
        let carry: u128 = low_part.high();
        let ghost p = pow2_128() as int;
        let ghost x = high_part@ as int;
        let ghost y = low_part@ as int;
        let ghost qh = (self@ / pow2_128()) as int;
        let ghost ql = (self@ % pow2_128()) as int;
        let ghost f = factor as int;
        proof {
            lemma_limbs_value_bound(low_part.limbs);
            vstd::arithmetic::div_mod::lemma_fundamental_div_mod(self@ as int, p);
            vstd::arithmetic::div_mod::lemma_fundamental_div_mod(y, p);
            assert(self@ * factor == x * p + y) by (nonlinear_arith)
                requires
                    self@ == p * qh + ql,
                    x == qh * f,
                    y == ql * f,
                    factor == f,
            ;
            assert(0 <= y % p < p);
            assert(y == p * (y / p) + y % p);
            assert(x * p + y == (x + y / p) * p + y % p) by (nonlinear_arith)
                requires
                    y == p * (y / p) + y % p,
            ;
            // below p * p exactly when x + y / p is below p
            if x + y / p < p {
                assert((x + y / p) * p + y % p < p * p) by (nonlinear_arith)
                    requires
                        x + y / p <= p - 1,
                        0 <= y % p < p,
                ;
            } else {
                assert((x + y / p) * p + y % p >= p * p) by (nonlinear_arith)
                    requires
                        x + y / p >= p,
                        0 <= y % p,
                        p > 0,
                ;
            }
        }
        match high_part.to_u128() {
            None => false,
            Some(top) => match top.checked_add(carry) {
                None => false,
                Some(_) => true,
            },
        }
    }
}

/// The value of four limbs is the value of the upper two times two to the
/// power 128 plus the value of the lower two.
pub proof fn lemma_split(limbs: [u64; 4])
    ensures
        limbs_value(limbs) / pow2_128() == limbs[2] as nat + limbs[3] as nat * pow2_64(),
        limbs_value(limbs) % pow2_128() == limbs[0] as nat + limbs[1] as nat * pow2_64(),
        (limbs_value(limbs) == 0) == (limbs[0] == 0 && limbs[1] == 0 && limbs[2] == 0 && limbs[3]
            == 0),
{
    let p: int = pow2_64() as int;
    let low: int = limbs[0] as int + limbs[1] as int * p;
    let high: int = limbs[2] as int + limbs[3] as int * p;
    assert(limbs[1] as int * p <= (p - 1) * p) by (nonlinear_arith)
        requires
            limbs[1] as int <= p - 1,
    ;
    assert(0 <= low < p * p) by (nonlinear_arith)
        requires
            low == limbs[0] as int + limbs[1] as int * p,
            0 <= limbs[0] as int <= p - 1,
            0 <= limbs[1] as int * p <= (p - 1) * p,
    ;
    assert(limbs_value(limbs) == high * (p * p) + low) by (nonlinear_arith)
        requires
            limbs_value(limbs) == limbs[0] as int + limbs[1] as int * p + limbs[2] as int * (p * p)
                + limbs[3] as int * p * (p * p),
            low == limbs[0] as int + limbs[1] as int * p,
            high == limbs[2] as int + limbs[3] as int * p,
    ;
    vstd::arithmetic::div_mod::lemma_fundamental_div_mod_converse(
        limbs_value(limbs) as int,
        p * p,
        high,
        low,
    );
    assert(limbs[3] as int * p >= 0) by (nonlinear_arith)
        requires
            limbs[3] as int >= 0,
            p > 0,
    ;
    if limbs[3] != 0 {
        assert(limbs[3] as int * p >= p) by (nonlinear_arith)
            requires
                limbs[3] as int >= 1,
                p > 0,
        ;
    }
    if limbs[1] != 0 {
        assert(limbs[1] as int * p >= p) by (nonlinear_arith)
            requires
                limbs[1] as int >= 1,
                p > 0,
        ;
    }
    if high != 0 {
        assert(high * (p * p) >= p * p) by (nonlinear_arith)
            requires
                high >= 1,
                p > 0,
        ;
    }
}

/// The full product of two 128-bit integers, by the multiplication of
/// `primitive_types::U256`. That multiplication panics only when the product
/// does not fit in 256 bits, which cannot happen for two factors below two to
/// the power 128; the contract claims that the limbs returned are those of
/// the exact product.
#[verifier::external_body]
pub(crate) fn full_mul(a: u128, b: u128) -> (r: Uint256)
    ensures
        r@ == a as nat * b as nat,
{
    let product = primitive_types::U256::from(a) * primitive_types::U256::from(b);
    Uint256 { limbs: product.0 }
}

/// `primitive_types::U256::integer_sqrt`: the contract claims what its
/// documentation says, that the result is the largest integer whose square
/// does not exceed the argument.
#[verifier::external_body]
pub(crate) fn integer_sqrt(x: &Uint256) -> (r: Uint256)
    ensures
        r@ * r@ <= x@,
        x@ < (r@ + 1) * (r@ + 1),
{
    Uint256 { limbs: primitive_types::U256(x.limbs).integer_sqrt().0 }
}

} // verus!
