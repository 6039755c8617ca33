//! The guards that a caller may set: a limit on the spread of a swap and a
//! tolerance on the proportions of a deposit.

use vstd::prelude::*;
use crate::decimal::{spec_mul_decimal, Decimal};
use crate::decimal256::{decimal_fractional, Decimal256, DECIMAL_FRACTIONAL};
use crate::error::PairError;
use crate::swap::{lemma_inverse_fits, lemma_scaled_fits};
use crate::uint256::pow2_256;

verus! {

/// The ratio of two amounts in atomic units of a decimal, rounded down.
pub open spec fn spec_share(part: u128, whole: u128) -> nat {
    (part as nat * decimal_fractional()) / (whole as nat)
}

/// Whether a swap stays within the spread that the caller allows.
///
/// With a belief price and a limit, the return is held against the offer
/// divided by the belief price, and the swap fails when the return falls
/// short of it by more than the limit's share. With a limit alone, the swap
/// fails when the spread is more than the limit's share of return and spread
/// together. Without a limit nothing is checked.
pub open spec fn spec_assert_max_spread(
    belief_price: Option<Decimal>,
    max_spread: Option<Decimal>,
    offer_amount: u128,
    return_amount: u128,
    spread_amount: u128,
) -> Result<(), PairError> {
    match (max_spread, belief_price) {
        (Some(limit), Some(price)) => if price.atomics == 0 {
            Err(PairError::Arithmetic)
        } else {
            match spec_mul_decimal(
                offer_amount,
                ((decimal_fractional() * decimal_fractional()) / (price.atomics as nat)) as u128,
            ) {
                Err(e) => Err(e),
                Ok(expected_return) => if return_amount < expected_return && spec_share(
                    (expected_return - return_amount) as u128,
                    expected_return,
                ) > limit.atomics {
                    Err(PairError::MaxSpreadExceeded)
                } else {
                    Ok(())
                },
            }
        },
        (Some(limit), None) => if return_amount + spread_amount > u128::MAX || return_amount
            + spread_amount == 0 {
            Err(PairError::Arithmetic)
        } else if spec_share(spread_amount, (return_amount + spread_amount) as u128)
            > limit.atomics {
            Err(PairError::MaxSpreadExceeded)
        } else {
            Ok(())
        },
        (None, _) => Ok(()),
    }
}

/// The share of a part in a whole that holds it is at most one.
pub proof fn lemma_share_at_most_one(part: u128, whole: u128)
    requires
        part <= whole,
        0 < whole,
    ensures
        spec_share(part, whole) <= decimal_fractional(),
{
    let d = decimal_fractional() as int;
    assert(part as int * d <= d * whole as int) by (nonlinear_arith)
        requires
            0 <= part as int <= whole as int,
            0 < d,
    ;
    assert(0 <= part as int * d) by (nonlinear_arith)
        requires
            0 <= part as int,
            0 < d,
    ;
    vstd::arithmetic::div_mod::lemma_div_is_ordered(part as int * d, d * whole as int, whole as int);
    vstd::arithmetic::div_mod::lemma_div_multiples_vanish(d, whole as int);
    assert(d * whole as int == whole as int * d) by (nonlinear_arith);
}

/// The share of a part in a whole that holds it, as a decimal. It is at
/// most one, so it is always to be had.
fn share(part: u128, whole: u128) -> (r: Result<Decimal, PairError>)
    requires
        part <= whole,
        0 < whole,
    ensures
        r is Ok,
        r->Ok_0.atomics == spec_share(part, whole),
{
    proof {
        lemma_share_at_most_one(part, whole);
    }
    Decimal::from_ratio(part, whole)
}

/// Checks a swap against the spread that the caller allows.
///
/// An arithmetic error comes exactly when the belief price is zero, the
/// expected return leaves 128 bits, or, with a limit alone, return and
/// spread together are zero or leave 128 bits.
pub fn assert_max_spread(
    belief_price: Option<Decimal>,
    max_spread: Option<Decimal>,
    offer_amount: u128,
    return_amount: u128,
    spread_amount: u128,
) -> (r: Result<(), PairError>)
    ensures
        r == spec_assert_max_spread(
            belief_price,
            max_spread,
            offer_amount,
            return_amount,
            spread_amount,
        ),
        max_spread is None ==> r is Ok,
{
    match max_spread {
        None => Ok(()),
        Some(limit) => match belief_price {
            Some(price) => {
                if price.is_zero() {
                    return Err(PairError::Arithmetic);
                }
                proof {
                    lemma_scaled_fits(0);
                    lemma_inverse_fits(price.atomics as nat);
                }
                let inverse = match Decimal256::one().checked_div(&price.widen()) {
                    Ok(q) => q,
                    Err(e) => {
                        return Err(e);
                    },
                };
                let inverse = match inverse.narrow() {
                    Some(d) => d,
                    None => {
                        return Err(PairError::Arithmetic);
                    },
                };
                let expected_return = match inverse.mul_amount(offer_amount) {
                    Ok(a) => a,
                    Err(e) => {
                        return Err(e);
                    },
                };
                if return_amount < expected_return {
                    let shortfall: u128 = expected_return - return_amount;
                    let short = match share(shortfall, expected_return) {
                        Ok(d) => d,
                        Err(e) => {
                            return Err(e);
                        },
                    };
                    if short.atomics > limit.atomics {
                        return Err(PairError::MaxSpreadExceeded);
                    }
                }
                Ok(())
            },
            None => {
                let total = match return_amount.checked_add(spread_amount) {
                    Some(t) => t,
                    None => {
                        return Err(PairError::Arithmetic);
                    },
                };
                if total == 0 {
                    return Err(PairError::Arithmetic);
                }
                let spread = match share(spread_amount, total) {
                    Ok(d) => d,
                    Err(e) => {
                        return Err(e);
                    },
                };
                if spread.atomics > limit.atomics {
                    return Err(PairError::MaxSpreadExceeded);
                }
                Ok(())
            },
        },
    }
}

/// The price of the first amount in the second, lowered by the tolerance:
/// their ratio, rounded down, times what the tolerance keeps, rounded down.
pub open spec fn spec_tolerated_price(first: u128, second: u128, keep: nat) -> nat {
    (spec_share(first, second) * keep) / decimal_fractional()
}

/// Whether a deposit of two amounts is in proportion with the two pools,
/// within a tolerance.
///
/// Without a tolerance nothing is checked. A tolerance above one is turned
/// down. The price of the first deposit in the second, lowered by the
/// tolerance, must not exceed the price of the first pool in the second, and
/// the same with first and second exchanged. A price with nothing to divide
/// by is an arithmetic error.
pub open spec fn spec_assert_slippage_tolerance(
    slippage_tolerance: Option<Decimal>,
    deposits: [u128; 2],
    pools: [u128; 2],
) -> Result<(), PairError> {
    match slippage_tolerance {
        None => Ok(()),
        Some(tolerance) => if tolerance.atomics > DECIMAL_FRACTIONAL {
            Err(PairError::SlippageToleranceTooLarge)
        } else {
            let keep = (DECIMAL_FRACTIONAL - tolerance.atomics) as nat;
            if deposits[1] == 0 || pools[1] == 0 {
                Err(PairError::Arithmetic)
            } else if spec_tolerated_price(deposits[0], deposits[1], keep) > spec_share(
                pools[0],
                pools[1],
            ) {
                Err(PairError::SlippageToleranceExceeded)
            } else if deposits[0] == 0 || pools[0] == 0 {
                Err(PairError::Arithmetic)
            } else if spec_tolerated_price(deposits[1], deposits[0], keep) > spec_share(
                pools[1],
                pools[0],
            ) {
                Err(PairError::SlippageToleranceExceeded)
            } else {
                Ok(())
            }
        },
    }
}

/// Lowering a price by a tolerance of at most one does not raise it.
pub proof fn lemma_tolerated_price_bound(first: u128, second: u128, keep: nat)
    requires
        keep <= decimal_fractional(),
    ensures
        spec_tolerated_price(first, second, keep) <= spec_share(first, second),
{
    let d = decimal_fractional() as int;
    let x = spec_share(first, second) as int;
    let k = keep as int;
    assert(0 <= x * k <= x * d) by (nonlinear_arith)
        requires
            0 <= x,
            0 <= k <= d,
    ;
    vstd::arithmetic::div_mod::lemma_div_is_ordered(x * k, x * d, d);
    vstd::arithmetic::div_mod::lemma_div_multiples_vanish(x, d);
    assert(x * d == d * x) by (nonlinear_arith);
}

/// A deposit in the very proportion of the pools passes under every
/// tolerance of at most one.
pub proof fn lemma_proportional_deposit_passes(tolerance: Decimal, pools: [u128; 2])
    requires
        tolerance.atomics <= DECIMAL_FRACTIONAL,
        pools[0] != 0,
        pools[1] != 0,
    ensures
        spec_assert_slippage_tolerance(Some(tolerance), pools, pools) == Ok::<(), PairError>(()),
{
    let keep = (DECIMAL_FRACTIONAL - tolerance.atomics) as nat;
    lemma_tolerated_price_bound(pools[0], pools[1], keep);
    lemma_tolerated_price_bound(pools[1], pools[0], keep);
}

/// Whether the price of `first` in `second`, lowered by the tolerance, is
/// above the price of the pools.
fn price_dropped(first: u128, second: u128, pool_first: u128, pool_second: u128, keep: &Decimal256) -> (r:
    Result<bool, PairError>)
    requires
        keep@ <= decimal_fractional(),
    ensures
        second == 0 || pool_second == 0 ==> r == Err::<bool, PairError>(PairError::Arithmetic),
        second != 0 && pool_second != 0 ==> r == Ok::<bool, PairError>(
            spec_tolerated_price(first, second, keep@) > spec_share(pool_first, pool_second),
        ),
{
    let deposit_price = match Decimal256::from_ratio(first, second) {
        Ok(p) => p,
        Err(e) => {
            return Err(e);
        },
    };
    let pool_price = match Decimal256::from_ratio(pool_first, pool_second) {
        Ok(p) => p,
        Err(e) => {
            return Err(e);
        },
    };
    proof {
        let d = decimal_fractional() as int;
        let x = deposit_price@ as int;
        let k = keep@ as int;
        let f = first as int;
        assert(f * d >= 0) by (nonlinear_arith)
            requires
                f >= 0,
                d > 0,
        ;
        vstd::arithmetic::div_mod::lemma_div_is_ordered_by_denominator(f * d, 1, second as int);
        vstd::arithmetic::div_mod::lemma_div_basics(f * d);
        assert(x <= f * d);
        assert(x * k < pow2_256()) by (nonlinear_arith)
            requires
                0 <= x <= f * d,
                0 <= f <= 0xFFFF_FFFF_FFFF_FFFF_FFFF_FFFF_FFFF_FFFF,
                0 <= k <= d,
                d == 1_000_000_000_000_000_000,
                pow2_256() == 0x1_0000_0000_0000_0000_0000_0000_0000_0000int
                    * 0x1_0000_0000_0000_0000_0000_0000_0000_0000int,
        ;
    }
    Ok(deposit_price.mul(keep).gt(&pool_price))
}

/// Checks a deposit against the tolerance that the caller allows.
pub fn assert_slippage_tolerance(
    slippage_tolerance: &Option<Decimal>,
    deposits: &[u128; 2],
    pools: &[u128; 2],
) -> (r: Result<(), PairError>)
    ensures
        r == spec_assert_slippage_tolerance(*slippage_tolerance, *deposits, *pools),
        slippage_tolerance is None ==> r is Ok,
{
    match slippage_tolerance {
        None => Ok(()),
        Some(tolerance) => {
            let tolerance = tolerance.widen();
            let one = Decimal256::one();
            if tolerance.gt(&one) {
                return Err(PairError::SlippageToleranceTooLarge);
            }
            let one_minus_slippage_tolerance = one.sub(&tolerance);
            match price_dropped(
                deposits[0],
                deposits[1],
                pools[0],
                pools[1],
                &one_minus_slippage_tolerance,
            ) {
                Err(e) => {
                    return Err(e);
                },
                Ok(true) => {
                    return Err(PairError::SlippageToleranceExceeded);
                },
                Ok(false) => {},
            }
            match price_dropped(
                deposits[1],
                deposits[0],
                pools[1],
                pools[0],
                &one_minus_slippage_tolerance,
            ) {
                Err(e) => Err(e),
                Ok(true) => Err(PairError::SlippageToleranceExceeded),
                Ok(false) => Ok(()),
            }
        },
    }
}

} // verus!
