//! The weighted constant-product curve: how much leaves a pool for what
//! enters it, and the other way round.

use vstd::prelude::*;
use crate::decimal256::{decimal256_text, decimal_fractional, spec_checked_div, Decimal256};
use crate::error::PairError;
use crate::fixed::{fixed_parse, spec_pow, FixedFloat, FIXED_ONE_BITS};

verus! {

/// The integer as a decimal.
pub fn uint2dec(i: u128) -> (r: Decimal256)
    ensures
        r@ == i as nat * decimal_fractional(),
{
    Decimal256::from_uint(i)
}

/// The ratio of two amounts as a decimal, rounded down; an arithmetic error
/// exactly when the denominator is zero.
pub fn decimal_from_ratio(nom: u128, denom: u128) -> (r: Result<Decimal256, PairError>)
    ensures
        denom == 0 ==> r == Err::<Decimal256, PairError>(PairError::Arithmetic),
        denom != 0 ==> r is Ok && r->Ok_0@ == (nom as nat * decimal_fractional()) / (denom as nat),
{
    Decimal256::from_ratio(nom, denom)
}

/// The fixed-point number that stands for a decimal: the one nearest to the
/// decimal's text, if there is one in range.
pub open spec fn spec_to_fixed(atomics: nat) -> Option<FixedFloat> {
    match fixed_parse(decimal256_text(atomics)) {
        Some(bits) => Some(FixedFloat { bits }),
        None => None,
    }
}

/// Carries a decimal over to fixed point by way of its text.
pub fn decimal_to_fixed(d: &Decimal256) -> (r: Option<FixedFloat>)
    ensures
        r == spec_to_fixed(d@),
{
    let text = d.to_text();
    FixedFloat::parse(text.as_str())
}

/// The power of two decimals in fixed point.
pub open spec fn spec_fixed_pow(n: nat, i: nat) -> Result<FixedFloat, PairError> {
    match (spec_to_fixed(n), spec_to_fixed(i)) {
        (Some(base), Some(exponent)) => match spec_pow(base.bits, exponent.bits) {
            Some(p) => Ok(p),
            None => Err(PairError::Arithmetic),
        },
        _ => Err(PairError::Arithmetic),
    }
}

/// Raises a decimal to a decimal power in fixed point; an arithmetic error
/// exactly when one of the two has no fixed-point number, the base comes to
/// zero, or the power is not to be had.
pub fn fixed_pow(n: &Decimal256, i: &Decimal256) -> (r: Result<FixedFloat, PairError>)
    ensures
        r == spec_fixed_pow(n@, i@),
{
    let base = match decimal_to_fixed(n) {
        Some(f) => f,
        None => {
            return Err(PairError::Arithmetic);
        },
    };
    let exponent = match decimal_to_fixed(i) {
        Some(f) => f,
        None => {
            return Err(PairError::Arithmetic);
        },
    };
    match base.pow(exponent) {
        Some(p) => Ok(p),
        None => Err(PairError::Arithmetic),
    }
}

/// Where the exponent comes to one in fixed point, the power of a base
/// that comes to a positive number is that number.
pub proof fn lemma_unit_exponent(n: nat, i: nat)
    requires
        spec_to_fixed(n) is Some,
        spec_to_fixed(n)->Some_0.bits > 0,
        spec_to_fixed(i) == Some(FixedFloat { bits: FIXED_ONE_BITS }),
    ensures
        spec_fixed_pow(n, i) == Ok::<FixedFloat, PairError>(spec_to_fixed(n)->Some_0),
{
}

/// What leaves a pool of `balance_out` when the balances' ratio, raised to
/// the weights' ratio, is the number of bit pattern `power`: the balance
/// times one minus the power, rounded down.
pub open spec fn spec_amount_out(balance_out: u128, power: i128) -> Result<u128, PairError> {
    let multiplier: int = FIXED_ONE_BITS - power;
    let scaled: int = balance_out * multiplier;
    if balance_out >= 0x8000_0000_0000_0000 || multiplier > i128::MAX || scaled < 0 || scaled
        > i128::MAX {
        Err(PairError::Arithmetic)
    } else {
        Ok((scaled / (FIXED_ONE_BITS as int)) as u128)
    }
}

/// What must enter a pool of `balance_in` when the balances' ratio, raised
/// to the weights' ratio, is the number of bit pattern `power`: the balance
/// times the power minus one, rounded down.
pub open spec fn spec_amount_in(balance_in: u128, power: i128) -> Result<u128, PairError> {
    let multiplier: int = power - FIXED_ONE_BITS;
    let scaled: int = balance_in * multiplier;
    if balance_in >= 0x8000_0000_0000_0000 || multiplier < i128::MIN || scaled < 0 || scaled
        > i128::MAX {
        Err(PairError::Arithmetic)
    } else {
        Ok((scaled / (FIXED_ONE_BITS as int)) as u128)
    }
}

/// For a power between zero and one, what leaves the pool is never more
/// than the pool holds, and never more than the curve gives: amounts are
/// rounded down.
pub proof fn lemma_amount_out_bounded(balance_out: u128, power: i128)
    requires
        0 <= power <= FIXED_ONE_BITS,
        balance_out < 0x8000_0000_0000_0000,
    ensures
        spec_amount_out(balance_out, power) is Ok,
        spec_amount_out(balance_out, power)->Ok_0 <= balance_out,
        spec_amount_out(balance_out, power)->Ok_0 * FIXED_ONE_BITS <= balance_out * (FIXED_ONE_BITS
            - power),
        balance_out * (FIXED_ONE_BITS - power) < (spec_amount_out(balance_out, power)->Ok_0 + 1)
            * FIXED_ONE_BITS,
{
    let one = FIXED_ONE_BITS as int;
    let m = one - power;
    let b = balance_out as int;
    assert(0 <= b * m <= b * one) by (nonlinear_arith)
        requires
            0 <= b,
            0 <= m <= one,
    ;
    assert(b * one < 0x8000_0000_0000_0000 * one) by (nonlinear_arith)
        requires
            b < 0x8000_0000_0000_0000,
            one > 0,
    ;
    vstd::arithmetic::div_mod::lemma_div_is_ordered(b * m, b * one, one);
    vstd::arithmetic::div_mod::lemma_div_multiples_vanish(b, one);
    assert(b * one == one * b) by (nonlinear_arith);
    vstd::arithmetic::div_mod::lemma_fundamental_div_mod(b * m, one);
    vstd::arithmetic::div_mod::lemma_div_pos_is_pos(b * m, one);
    let q = (b * m) / one;
    assert(q * one == one * q) by (nonlinear_arith);
    assert((q + 1) * one == one * q + one) by (nonlinear_arith);
}

/// The amount that the constant product gives for `amount_in`:
/// `balance_out - balance_out * balance_in / (balance_in + amount_in)`, the
/// quotient rounded down.
pub open spec fn constant_product_out(balance_in: u128, balance_out: u128, amount_in: u128) -> int
    recommends
        amount_in > 0,
{
    balance_out - (balance_out * balance_in) / (balance_in + amount_in)
}

/// Whether a bit pattern is a decimal of eighteen digits brought to fixed
/// point to the nearest: within half a unit of the last binary place.
pub open spec fn is_nearest_fixed(bits: i128, atomics: nat) -> bool {
    let scaled = bits * decimal_fractional() - atomics * FIXED_ONE_BITS;
    -decimal_fractional() <= 2 * scaled <= decimal_fractional()
}

/// Where the power is the ratio of the balances itself, brought to fixed
/// point to the nearest, as it is for equal weights, the curve gives what
/// the constant product gives to within a few units: at most two less, and
/// at most one more for every ten to the power 18 units of the pool, and
/// one.
pub proof fn lemma_constant_product_bound(
    balance_in: u128,
    balance_out: u128,
    amount_in: u128,
    power: i128,
)
    requires
        amount_in > 0,
        balance_in + amount_in <= u128::MAX,
        balance_out < 0x8000_0000_0000_0000,
        is_nearest_fixed(power, spec_ratio(balance_in, balance_in + amount_in)),
    ensures
        spec_amount_out(balance_out, power) is Ok,
        constant_product_out(balance_in, balance_out, amount_in) - 2 <= spec_amount_out(
            balance_out,
            power,
        )->Ok_0 <= constant_product_out(balance_in, balance_out, amount_in) + balance_out
            / 1_000_000_000_000_000_000 + 1,
{
    let d = decimal_fractional() as int;
    let t = FIXED_ONE_BITS as int;
    let o = balance_in as int;
    let a = amount_in as int;
    let s = o + a;
    let b = balance_out as int;
    let y = spec_ratio(balance_in, s) as int;
    let pw = power as int;
    assert(0 <= o * d) by (nonlinear_arith)
        requires
            0 <= o,
            0 < d,
    ;
    vstd::arithmetic::div_mod::lemma_fundamental_div_mod(o * d, s);
    vstd::arithmetic::div_mod::lemma_div_pos_is_pos(o * d, s);
    assert(y == (o * d) / s);
    assert(0 <= (o * d) % s < s);
    assert(y * s == s * y) by (nonlinear_arith);
    // the ratio is at most one, and short of the true ratio by less than a unit
    assert(y * s <= o * d && o * d < y * s + s);
    assert(y <= d) by (nonlinear_arith)
        requires
            y * s <= o * d,
            o <= s,
            0 < s,
            0 < d,
            0 <= y,
    ;
    // so the power lies between zero and one
    assert(0 <= pw <= t) by (nonlinear_arith)
        requires
            -d <= 2 * (pw * d - y * t) <= d,
            0 <= y <= d,
            d == 1_000_000_000_000_000_000,
            t == 0x1_0000_0000_0000_0000,
    ;
    lemma_amount_out_bounded(balance_out, power);
    let m = t - pw;
    let g = spec_amount_out(balance_out, power)->Ok_0 as int;
    assert(g * t <= b * m && b * m < (g + 1) * t);
    let f = (b * o) / s;
    assert(0 <= b * o) by (nonlinear_arith)
        requires
            0 <= b,
            0 <= o,
    ;
    vstd::arithmetic::div_mod::lemma_fundamental_div_mod(b * o, s);
    assert(0 <= (b * o) % s < s);
    assert(f * s == s * f) by (nonlinear_arith);
    assert(f * s <= b * o && b * o < f * s + s);
    let cp = b - f;
    assert(cp == constant_product_out(balance_in, balance_out, amount_in));
    let q = b / d;
    vstd::arithmetic::div_mod::lemma_fundamental_div_mod(b, d);
    assert(b < (q + 1) * d) by (nonlinear_arith)
        requires
            b == d * q + b % d,
            0 <= b % d < d,
    ;
    // one minus the power against one minus the ratio, all times 2 d s
    let w = d - y;
    assert(2 * d * m <= 2 * t * w + d && 2 * d * m >= 2 * t * w - d) by (nonlinear_arith)
        requires
            -d <= 2 * (pw * d - y * t) <= d,
            m == t - pw,
            w == d - y,
    ;
    assert(w * s >= d * a && w * s < d * a + s) by (nonlinear_arith)
        requires
            w == d - y,
            s == o + a,
            y * s <= o * d,
            o * d < y * s + s,
    ;
    let k = 2 * d * s;
    assert(0 < k) by (nonlinear_arith)
        requires
            k == 2 * d * s,
            0 < d,
            0 < s,
    ;
    assert(m * k <= 2 * t * (d * a + s) + d * s && m * k >= 2 * t * (d * a) - d * s)
        by (nonlinear_arith)
        requires
            k == 2 * d * s,
            2 * d * m <= 2 * t * w + d,
            2 * d * m >= 2 * t * w - d,
            w * s >= d * a,
            w * s < d * a + s,
            0 < s,
            0 < t,
    ;
    assert(cp * s >= b * a && cp * s < b * a + s) by (nonlinear_arith)
        requires
            cp == b - f,
            s == o + a,
            f * s <= b * o,
            b * o < f * s + s,
    ;
    // the curve against the constant product, from above
    if g >= cp + q + 2 {
        assert(g * t * k <= b * (2 * t * (d * a + s) + d * s)) by (nonlinear_arith)
            requires
                g * t <= b * m,
                m * k <= 2 * t * (d * a + s) + d * s,
                0 <= b,
                0 < k,
        ;
        assert(g * t * k >= (cp + q + 2) * (t * k)) by (nonlinear_arith)
            requires
                g >= cp + q + 2,
                0 < t,
                0 < k,
        ;
        assert(false) by (nonlinear_arith)
            requires
                g * t * k <= b * (2 * t * (d * a + s) + d * s),
                g * t * k >= (cp + q + 2) * (t * k),
                k == 2 * d * s,
                cp * s >= b * a,
                b < (q + 1) * d,
                0 <= b < 0x8000_0000_0000_0000,
                t == 0x1_0000_0000_0000_0000,
                0 < d,
                0 < s,
                0 < a,
                0 <= q,
        ;
    }
    // and from below
    if g <= cp - 3 {
        assert((g + 1) * t * k > b * (2 * t * (d * a) - d * s) - 1 && (g + 1) * t * k >= b * (2
            * t * (d * a) - d * s)) by (nonlinear_arith)
            requires
                b * m < (g + 1) * t,
                m * k >= 2 * t * (d * a) - d * s,
                0 <= b,
                0 < k,
        ;
        assert((g + 1) * t * k <= (cp - 2) * (t * k)) by (nonlinear_arith)
            requires
                g + 1 <= cp - 2,
                0 < t,
                0 < k,
        ;
        assert(false) by (nonlinear_arith)
            requires
                (g + 1) * t * k >= b * (2 * t * (d * a) - d * s),
                (g + 1) * t * k <= (cp - 2) * (t * k),
                k == 2 * d * s,
                cp * s < b * a + s,
                0 <= b < 0x8000_0000_0000_0000,
                t == 0x1_0000_0000_0000_0000,
                0 < d,
                0 < s,
        ;
    }
    vstd::arithmetic::div_mod::lemma_div_pos_is_pos(b, d);
}

/// For a power of at least one, what must enter the pool is rounded down
/// from what the curve asks for, so that a reverse quote can ask for a unit
/// less than the curve, never for more.
pub proof fn lemma_amount_in_bounded(balance_in: u128, power: i128)
    requires
        FIXED_ONE_BITS <= power,
        spec_amount_in(balance_in, power) is Ok,
    ensures
        spec_amount_in(balance_in, power)->Ok_0 * FIXED_ONE_BITS <= balance_in * (power
            - FIXED_ONE_BITS),
        balance_in * (power - FIXED_ONE_BITS) < (spec_amount_in(balance_in, power)->Ok_0 + 1)
            * FIXED_ONE_BITS,
{
    let one = FIXED_ONE_BITS as int;
    let scaled = balance_in as int * (power - one);
    vstd::arithmetic::div_mod::lemma_fundamental_div_mod(scaled, one);
    vstd::arithmetic::div_mod::lemma_div_pos_is_pos(scaled, one);
    let q = scaled / one;
    assert(q * one == one * q) by (nonlinear_arith);
    assert((q + 1) * one == one * q + one) by (nonlinear_arith);
}

/// A balance times a multiplier in fixed point, as an amount.
fn scale_balance(balance: u128, multiplier: FixedFloat) -> (r: Result<u128, PairError>)
    ensures
        r == (if balance >= 0x8000_0000_0000_0000 || balance * multiplier.bits < 0 || balance
            * multiplier.bits > i128::MAX {
            Err::<u128, PairError>(PairError::Arithmetic)
        } else {
            Ok(((balance * multiplier.bits) / (FIXED_ONE_BITS as int)) as u128)
        }),
{
    let fixed_balance = match FixedFloat::from_num(balance) {
        Some(f) => f,
        None => {
            return Err(PairError::Arithmetic);
        },
    };
    let ghost one = FIXED_ONE_BITS as int;
    let ghost m = multiplier.bits as int;
    let ghost b = balance as int;
    proof {
        assert(fixed_balance.bits == b * one);
        assert((b * one) * m == (b * m) * one) by (nonlinear_arith);
        vstd::arithmetic::div_mod::lemma_div_multiples_vanish(b * m, one);
        assert(((b * one) * m) / one == b * m);
    }
    let product = match fixed_balance.checked_mul(multiplier) {
        Some(f) => f,
        None => {
            proof {
                if b * m >= 0 {
                    assert(b * m > i128::MAX);
                } else {
                    assert(b * m < 0);
                }
            }
            return Err(PairError::Arithmetic);
        },
    };
    assert(product.bits == b * m);
    match product.to_num() {
        Some(amount) => Ok(amount),
        None => Err(PairError::Arithmetic),
    }
}

/// The amount that leaves a pool for a given power of the balances' ratio;
/// an arithmetic error exactly when the balance is two to the power 63 or
/// more, or one minus the power, or its product with the balance, is
/// negative or leaves the fixed-point range.
pub fn amount_out_from_power(balance_out: u128, power: FixedFloat) -> (r: Result<u128, PairError>)
    ensures
        r == spec_amount_out(balance_out, power.bits),
{
    let multiplier = match FixedFloat::one().checked_sub(power) {
        Some(m) => m,
        None => {
            return Err(PairError::Arithmetic);
        },
    };
    scale_balance(balance_out, multiplier)
}

/// The amount that must enter a pool for a given power of the balances'
/// ratio; an arithmetic error exactly when the balance is two to the power
/// 63 or more, or the power minus one, or its product with the balance, is
/// negative or leaves the fixed-point range.
pub fn amount_in_from_power(balance_in: u128, power: FixedFloat) -> (r: Result<u128, PairError>)
    ensures
        r == spec_amount_in(balance_in, power.bits),
{
    let multiplier = match power.checked_sub(FixedFloat::one()) {
        Some(m) => m,
        None => {
            return Err(PairError::Arithmetic);
        },
    };
    scale_balance(balance_in, multiplier)
}

/// The ratio of a pool's balance before a deposit to its balance after, as
/// the atomic count of a decimal.
pub open spec fn spec_ratio(numerator: u128, denominator: int) -> nat {
    ((numerator as nat * decimal_fractional()) as int / denominator) as nat
}

/// The amount of the other asset that a pool gives for `amount_in`:
/// `balance_out * (1 - (balance_in / (balance_in + amount_in)) ^ (weight_in / weight_out))`.
pub open spec fn spec_calc_out_given_in(
    balance_in: u128,
    weight_in: nat,
    balance_out: u128,
    weight_out: nat,
    amount_in: u128,
) -> Result<u128, PairError> {
    if amount_in == 0 {
        Ok(0u128)
    } else if balance_in + amount_in > u128::MAX {
        Err(PairError::Arithmetic)
    } else {
        match spec_checked_div(weight_in, weight_out) {
            Err(e) => Err(e),
            Ok(weight_ratio) => match spec_fixed_pow(
                spec_ratio(balance_in, balance_in + amount_in),
                weight_ratio,
            ) {
                Err(e) => Err(e),
                Ok(power) => spec_amount_out(balance_out, power.bits),
            },
        }
    }
}

/// The amount that a pool asks for in return for `amount_out` of the other
/// asset:
/// `balance_in * ((balance_out / (balance_out - amount_out)) ^ (weight_out / weight_in) - 1)`.
pub open spec fn spec_calc_in_given_out(
    balance_in: u128,
    weight_in: nat,
    balance_out: u128,
    weight_out: nat,
    amount_out: u128,
) -> Result<u128, PairError> {
    if amount_out >= balance_out {
        Err(PairError::InsufficientLiquidity)
    } else {
        match spec_checked_div(weight_out, weight_in) {
            Err(e) => Err(e),
            Ok(weight_ratio) => match spec_fixed_pow(
                spec_ratio(balance_out, balance_out - amount_out),
                weight_ratio,
            ) {
                Err(e) => Err(e),
                Ok(power) => spec_amount_in(balance_in, power.bits),
            },
        }
    }
}

/// The curve gives an amount, and no more than the pool holds, whenever
/// the pool is below two to the power 63, the balance after the deposit fits
/// in 128 bits, and the power of the balances' ratio comes to a number
/// between zero and one.
pub proof fn lemma_calc_out_succeeds(
    balance_in: u128,
    weight_in: nat,
    balance_out: u128,
    weight_out: nat,
    amount_in: u128,
)
    requires
        balance_in + amount_in <= u128::MAX,
        balance_out < 0x8000_0000_0000_0000,
        spec_checked_div(weight_in, weight_out) is Ok,
        spec_fixed_pow(
            spec_ratio(balance_in, balance_in + amount_in),
            spec_checked_div(weight_in, weight_out)->Ok_0,
        ) is Ok,
        0 <= spec_fixed_pow(
            spec_ratio(balance_in, balance_in + amount_in),
            spec_checked_div(weight_in, weight_out)->Ok_0,
        )->Ok_0.bits <= FIXED_ONE_BITS,
    ensures
        spec_calc_out_given_in(balance_in, weight_in, balance_out, weight_out, amount_in) is Ok,
        spec_calc_out_given_in(balance_in, weight_in, balance_out, weight_out, amount_in)->Ok_0
            <= balance_out,
{
    let power = spec_fixed_pow(
        spec_ratio(balance_in, balance_in + amount_in),
        spec_checked_div(weight_in, weight_out)->Ok_0,
    )->Ok_0;
    lemma_amount_out_bounded(balance_out, power.bits);
}

/// The amount that the pool gives for `amount_in`. Nothing in gives nothing
/// out. Otherwise an arithmetic error comes exactly when the balance after
/// the deposit leaves 128 bits, the weights have no ratio, the power is not
/// to be had, or the amount cannot be scaled in fixed point.
pub fn calc_out_given_in(
    balance_in: u128,
    weight_in: Decimal256,
    balance_out: u128,
    weight_out: Decimal256,
    amount_in: u128,
) -> (r: Result<u128, PairError>)
    ensures
        r == spec_calc_out_given_in(balance_in, weight_in@, balance_out, weight_out@, amount_in),
{
    if amount_in == 0 {
        return Ok(0);
    }
    let adjusted_in = match balance_in.checked_add(amount_in) {
        Some(a) => a,
        None => {
            return Err(PairError::Arithmetic);
        },
    };
    let y = match decimal_from_ratio(balance_in, adjusted_in) {
        Ok(y) => y,
        Err(e) => {
            return Err(e);
        },
    };
    let weight_ratio = match weight_in.checked_div(&weight_out) {
        Ok(w) => w,
        Err(e) => {
            return Err(e);
        },
    };
    let power = match fixed_pow(&y, &weight_ratio) {
        Ok(p) => p,
        Err(e) => {
            return Err(e);
        },
    };
    amount_out_from_power(balance_out, power)
}

/// The amount that the pool asks for in return for `amount_out`. Asking for
/// the whole balance or more is turned down for want of liquidity. Otherwise
/// an arithmetic error comes exactly when the weights have no ratio, the
/// power is not to be had, or the amount cannot be scaled in fixed point.
pub fn calc_in_given_out(
    balance_in: u128,
    weight_in: Decimal256,
    balance_out: u128,
    weight_out: Decimal256,
    amount_out: u128,
) -> (r: Result<u128, PairError>)
    ensures
        r == spec_calc_in_given_out(balance_in, weight_in@, balance_out, weight_out@, amount_out),
{
    if amount_out >= balance_out {
        return Err(PairError::InsufficientLiquidity);
    }
    let updated_balance: u128 = balance_out - amount_out;
    let weight_ratio = match weight_out.checked_div(&weight_in) {
        Ok(w) => w,
        Err(e) => {
            return Err(e);
        },
    };
    let y = match decimal_from_ratio(balance_out, updated_balance) {
        Ok(y) => y,
        Err(e) => {
            return Err(e);
        },
    };
    let power = match fixed_pow(&y, &weight_ratio) {
        Ok(p) => p,
        Err(e) => {
            return Err(e);
        },
    };
    amount_in_from_power(balance_in, power)
}

} // verus!
