//! Quotes for a swap in either direction, with the spread against the spot
//! price and the commission, and the guard on the spread.

use vstd::prelude::*;
use crate::decimal::{decimal_parse, spec_mul_decimal, Decimal};
use crate::decimal256::{decimal_fractional, spec_checked_div, Decimal256, DECIMAL_FRACTIONAL};
use crate::error::PairError;
use crate::math::{
    calc_in_given_out,
    calc_out_given_in,
    spec_calc_in_given_out,
    spec_calc_out_given_in,
    uint2dec,
};
use crate::uint256::pow2_256;

verus! {

/// The outcome of one swap computation.
#[derive(Clone, Copy, Debug, PartialEq, Eq, Structural)]
pub struct SwapQuote {
    /// What the trader receives, for a forward quote; what the trader must
    /// offer, for a reverse quote.
    pub amount: u128,
    /// How far the curve falls short of the spot price.
    pub spread_amount: u128,
    /// What stays in the pool for the liquidity providers.
    pub commission_amount: u128,
}

/// One times one, scaled for a division, fits in 256 bits with room to spare,
/// and so does any 128-bit integer scaled twice.
pub proof fn lemma_scaled_fits(value: u128)
    ensures
        decimal_fractional() * decimal_fractional() < pow2_256(),
        value as nat * decimal_fractional() * decimal_fractional() < pow2_256(),
{
    let d = decimal_fractional() as int;
    let v = value as int;
    assert(v * d * d < pow2_256() && d * d < pow2_256()) by (nonlinear_arith)
        requires
            0 <= v <= 0xFFFF_FFFF_FFFF_FFFF_FFFF_FFFF_FFFF_FFFF,
            d == 1_000_000_000_000_000_000,
            pow2_256() == 0x1_0000_0000_0000_0000_0000_0000_0000_0000int
                * 0x1_0000_0000_0000_0000_0000_0000_0000_0000int,
    ;
}

/// A pool's balance per unit of weight, as the atomic count of a decimal.
pub open spec fn spec_balance_per_weight(balance: u128, weight: nat) -> Result<nat, PairError> {
    if weight == 0 {
        Err(PairError::Arithmetic)
    } else {
        Ok((balance as nat * decimal_fractional() * decimal_fractional()) / weight)
    }
}

/// What the offer would fetch at the price of this instant:
/// `(ask_pool / ask_weight) / (offer_pool / offer_weight) * offer_amount`,
/// each quotient rounded down to eighteen digits and the product to an
/// integer.
pub open spec fn spec_ask_by_spot_price(
    offer_pool: u128,
    offer_weight: nat,
    ask_pool: u128,
    ask_weight: nat,
    offer_amount: u128,
) -> Result<u128, PairError> {
    match (
        spec_balance_per_weight(ask_pool, ask_weight),
        spec_balance_per_weight(offer_pool, offer_weight),
    ) {
        (Ok(ask_ratio), Ok(offer_ratio)) => match spec_checked_div(ask_ratio, offer_ratio) {
            Ok(price) => if price * (offer_amount as nat) >= pow2_256() || (price * (
            offer_amount as nat)) / decimal_fractional() > u128::MAX {
                Err(PairError::Arithmetic)
            } else {
                Ok(((price * (offer_amount as nat)) / decimal_fractional()) as u128)
            },
            Err(e) => Err(e),
        },
        _ => Err(PairError::Arithmetic),
    }
}

/// A pool's balance per unit of weight; an arithmetic error exactly when the
/// weight is zero.
fn balance_per_weight(balance: u128, weight: &Decimal256) -> (r: Result<Decimal256, PairError>)
    ensures
        crate::decimal256::decimal_outcome(r) == spec_balance_per_weight(balance, weight@),
{
    proof {
        lemma_scaled_fits(balance);
    }
    uint2dec(balance).checked_div(weight)
}

/// What the offer would fetch at the spot price; an arithmetic error exactly
/// when a weight is zero, the offer pool has nothing per unit of weight, or
/// an intermediate value leaves its range.
pub fn get_ask_by_spot_price(
    offer_pool: u128,
    offer_weight: Decimal256,
    ask_pool: u128,
    ask_weight: Decimal256,
    offer_amount: u128,
) -> (r: Result<u128, PairError>)
    ensures
        r == spec_ask_by_spot_price(offer_pool, offer_weight@, ask_pool, ask_weight@, offer_amount),
{
    let ask_ratio = match balance_per_weight(ask_pool, &ask_weight) {
        Ok(q) => q,
        Err(e) => {
            return Err(e);
        },
    };
    let offer_ratio = match balance_per_weight(offer_pool, &offer_weight) {
        Ok(q) => q,
        Err(e) => {
            return Err(e);
        },
    };
    let price = match ask_ratio.checked_div(&offer_ratio) {
        Ok(q) => q,
        Err(e) => {
            return Err(e);
        },
    };
    let ask_amount = match price.checked_mul_uint(offer_amount) {
        Ok(a) => a,
        Err(e) => {
            return Err(e);
        },
    };
    match ask_amount.to_u128() {
        Some(a) => Ok(a),
        None => Err(PairError::Arithmetic),
    }
}

/// The difference of two amounts, or zero where it would be negative.
pub open spec fn spec_shortfall(reference: u128, actual: u128) -> u128 {
    if reference >= actual {
        (reference - actual) as u128
    } else {
        0
    }
}

/// The forward quote at a commission rate given by its atomic count.
///
/// Nothing offered gives the quote of three zeros. Otherwise the curve gives
/// the gross return, the spread is what the spot price would have given
/// beyond it, the commission is the rate's share of the gross return, and
/// the trader receives the gross return less the commission.
pub open spec fn spec_swap_out(
    offer_pool: u128,
    offer_weight: nat,
    ask_pool: u128,
    ask_weight: nat,
    offer_amount: u128,
    commission_rate: u128,
) -> Result<SwapQuote, PairError> {
    if offer_amount == 0 {
        Ok(SwapQuote { amount: 0, spread_amount: 0, commission_amount: 0 })
    } else {
        match spec_calc_out_given_in(offer_pool, offer_weight, ask_pool, ask_weight, offer_amount) {
            Err(e) => Err(e),
            Ok(gross) => match spec_ask_by_spot_price(
                offer_pool,
                offer_weight,
                ask_pool,
                ask_weight,
                offer_amount,
            ) {
                Err(e) => Err(e),
                Ok(spot) => match spec_mul_decimal(gross, commission_rate) {
                    Err(e) => Err(e),
                    Ok(commission) => if commission > gross {
                        Err(PairError::Arithmetic)
                    } else {
                        Ok(
                            SwapQuote {
                                amount: (gross - commission) as u128,
                                spread_amount: spec_shortfall(spot, gross),
                                commission_amount: commission,
                            },
                        )
                    },
                },
            },
        }
    }
}

/// Whenever there is a forward quote for an offer, its spread is what the
/// spot price would have given beyond the gross return, or zero where the
/// curve gives more: it is never below zero. The commission is part of the
/// gross return, which is the return and the commission together.
pub proof fn lemma_spread_is_clamped(
    offer_pool: u128,
    offer_weight: nat,
    ask_pool: u128,
    ask_weight: nat,
    offer_amount: u128,
    commission_rate: u128,
)
    requires
        offer_amount > 0,
        spec_swap_out(
            offer_pool,
            offer_weight,
            ask_pool,
            ask_weight,
            offer_amount,
            commission_rate,
        ) is Ok,
    ensures
        ({
            let quote = spec_swap_out(
                offer_pool,
                offer_weight,
                ask_pool,
                ask_weight,
                offer_amount,
                commission_rate,
            )->Ok_0;
            let gross = spec_calc_out_given_in(
                offer_pool,
                offer_weight,
                ask_pool,
                ask_weight,
                offer_amount,
            );
            let spot = spec_ask_by_spot_price(
                offer_pool,
                offer_weight,
                ask_pool,
                ask_weight,
                offer_amount,
            );
            &&& gross is Ok
            &&& spot is Ok
            &&& quote.amount + quote.commission_amount == gross->Ok_0
            &&& quote.spread_amount == (if spot->Ok_0 >= gross->Ok_0 {
                spot->Ok_0 - gross->Ok_0
            } else {
                0
            })
        }),
{
}

/// A forward quote is to be had whenever the curve gives a gross return,
/// the spot price gives an amount, and the commission rate is at most one.
pub proof fn lemma_swap_out_succeeds(
    offer_pool: u128,
    offer_weight: nat,
    ask_pool: u128,
    ask_weight: nat,
    offer_amount: u128,
    commission_rate: u128,
)
    requires
        spec_calc_out_given_in(offer_pool, offer_weight, ask_pool, ask_weight, offer_amount) is Ok,
        spec_ask_by_spot_price(offer_pool, offer_weight, ask_pool, ask_weight, offer_amount) is Ok,
        commission_rate <= DECIMAL_FRACTIONAL,
    ensures
        spec_swap_out(
            offer_pool,
            offer_weight,
            ask_pool,
            ask_weight,
            offer_amount,
            commission_rate,
        ) is Ok,
{
    let gross = spec_calc_out_given_in(
        offer_pool,
        offer_weight,
        ask_pool,
        ask_weight,
        offer_amount,
    )->Ok_0 as int;
    let r = commission_rate as int;
    let d = DECIMAL_FRACTIONAL as int;
    assert(0 <= gross * r <= gross * d) by (nonlinear_arith)
        requires
            0 <= gross,
            0 <= r <= d,
    ;
    vstd::arithmetic::div_mod::lemma_div_is_ordered(gross * r, gross * d, d);
    vstd::arithmetic::div_mod::lemma_div_multiples_vanish(gross, d);
    assert(gross * d == d * gross) by (nonlinear_arith);
}

/// The forward quote: what a trader receives for `offer_amount`, with the
/// spread and the commission.
pub fn swap_out(
    offer_pool: u128,
    offer_weight: Decimal256,
    ask_pool: u128,
    ask_weight: Decimal256,
    offer_amount: u128,
    commission_rate: Decimal,
) -> (r: Result<SwapQuote, PairError>)
    ensures
        r == spec_swap_out(
            offer_pool,
            offer_weight@,
            ask_pool,
            ask_weight@,
            offer_amount,
            commission_rate.atomics,
        ),
        offer_amount == 0 ==> r == Ok::<SwapQuote, PairError>(
            SwapQuote { amount: 0, spread_amount: 0, commission_amount: 0 },
        ),
        r matches Ok(q) ==> q.amount + q.commission_amount <= u128::MAX,
{
    if offer_amount == 0 {
        return Ok(SwapQuote { amount: 0, spread_amount: 0, commission_amount: 0 });
    }
    let gross = match calc_out_given_in(offer_pool, offer_weight, ask_pool, ask_weight, offer_amount) {
        Ok(a) => a,
        Err(e) => {
            return Err(e);
        },
    };
    let spot = match get_ask_by_spot_price(
        offer_pool,
        offer_weight,
        ask_pool,
        ask_weight,
        offer_amount,
    ) {
        Ok(a) => a,
        Err(e) => {
            return Err(e);
        },
    };
    let spread_amount: u128 = if spot >= gross {
        spot - gross
    } else {
        0
    };
    let commission_amount = match commission_rate.mul_amount(gross) {
        Ok(a) => a,
        Err(e) => {
            return Err(e);
        },
    };
    if commission_amount > gross {
        return Err(PairError::Arithmetic);
    }
    Ok(SwapQuote { amount: gross - commission_amount, spread_amount, commission_amount })
}

/// The gross amount that the curve must give for the trader to keep
/// `ask_amount` after the commission: the amount times the inverse of one
/// minus the rate, the inverse rounded down to eighteen digits and the
/// product to an integer.
pub open spec fn spec_before_commission(ask_amount: u128, commission_rate: u128) -> Result<
    u128,
    PairError,
> {
    if commission_rate >= DECIMAL_FRACTIONAL {
        Err(PairError::Arithmetic)
    } else {
        spec_mul_decimal(
            ask_amount,
            ((decimal_fractional() * decimal_fractional()) / ((DECIMAL_FRACTIONAL
                - commission_rate) as nat)) as u128,
        )
    }
}

/// The reverse quote at a commission rate given by its atomic count.
pub open spec fn spec_swap_in(
    offer_pool: u128,
    offer_weight: nat,
    ask_pool: u128,
    ask_weight: nat,
    ask_amount: u128,
    commission_rate: u128,
) -> Result<SwapQuote, PairError> {
    match spec_before_commission(ask_amount, commission_rate) {
        Err(e) => Err(e),
        Ok(gross) => match spec_calc_in_given_out(
            offer_pool,
            offer_weight,
            ask_pool,
            ask_weight,
            gross,
        ) {
            Err(e) => Err(e),
            Ok(offer_amount) => match spec_ask_by_spot_price(
                offer_pool,
                offer_weight,
                ask_pool,
                ask_weight,
                offer_amount,
            ) {
                Err(e) => Err(e),
                Ok(spot) => match spec_mul_decimal(gross, commission_rate) {
                    Err(e) => Err(e),
                    Ok(commission) => Ok(
                        SwapQuote {
                            amount: offer_amount,
                            spread_amount: spec_shortfall(spot, gross),
                            commission_amount: commission,
                        },
                    ),
                },
            },
        }
    }
}

/// The inverse of a positive decimal of at most one is a decimal of at most
/// ten to the power 36 atomic units.
pub proof fn lemma_inverse_fits(divisor: nat)
    requires
        0 < divisor,
    ensures
        (decimal_fractional() * decimal_fractional()) / divisor <= u128::MAX,
{
    let d = decimal_fractional() as int;
    assert(d * d == 1_000_000_000_000_000_000_000_000_000_000_000_000) by (nonlinear_arith)
        requires
            d == 1_000_000_000_000_000_000,
    ;
    vstd::arithmetic::div_mod::lemma_div_is_ordered_by_denominator(d * d, 1, divisor as int);
    vstd::arithmetic::div_mod::lemma_div_basics(d * d);
}

/// The inverse of a decimal; an arithmetic error exactly when it is zero.
fn inverse(value: &Decimal256) -> (r: Result<Decimal, PairError>)
    requires
        value@ <= u128::MAX,
    ensures
        value@ == 0 ==> r == Err::<Decimal, PairError>(PairError::Arithmetic),
        value@ != 0 ==> r == Ok::<Decimal, PairError>(
            Decimal { atomics: ((decimal_fractional() * decimal_fractional()) / value@) as u128 },
        ),
{
    proof {
        lemma_scaled_fits(0);
        if value@ != 0 {
            lemma_inverse_fits(value@);
        }
    }
    let wide = match Decimal256::one().checked_div(value) {
        Ok(q) => q,
        Err(e) => {
            return Err(e);
        },
    };
    match wide.narrow() {
        Some(d) => Ok(d),
        None => Err(PairError::Arithmetic),
    }
}

/// The reverse quote: what a trader must offer to receive `ask_amount`
/// after the commission, with the spread and the commission.
///
/// A rate of one or more is an arithmetic error, and so is a gross amount
/// beyond 128 bits. A gross amount of the whole ask pool or more fails for
/// want of liquidity.
pub fn swap_in(
    offer_pool: u128,
    offer_weight: Decimal256,
    ask_pool: u128,
    ask_weight: Decimal256,
    ask_amount: u128,
    commission_rate: Decimal,
) -> (r: Result<SwapQuote, PairError>)
    ensures
        r == spec_swap_in(
            offer_pool,
            offer_weight@,
            ask_pool,
            ask_weight@,
            ask_amount,
            commission_rate.atomics,
        ),
{
    let rate = commission_rate.widen();
    let one = Decimal256::one();
    if !one.gt(&rate) {
        return Err(PairError::Arithmetic);
    }
    let one_minus_commission = one.sub(&rate);
    let inverse_rate = match inverse(&one_minus_commission) {
        Ok(d) => d,
        Err(e) => {
            return Err(e);
        },
    };
    let before_commission_deduction = match inverse_rate.mul_amount(ask_amount) {
        Ok(a) => a,
        Err(e) => {
            return Err(e);
        },
    };
    let offer_amount = match calc_in_given_out(
        offer_pool,
        offer_weight,
        ask_pool,
        ask_weight,
        before_commission_deduction,
    ) {
        Ok(a) => a,
        Err(e) => {
            return Err(e);
        },
    };
    let spot = match get_ask_by_spot_price(
        offer_pool,
        offer_weight,
        ask_pool,
        ask_weight,
        offer_amount,
    ) {
        Ok(a) => a,
        Err(e) => {
            return Err(e);
        },
    };
    let spread_amount: u128 = if spot >= before_commission_deduction {
        spot - before_commission_deduction
    } else {
        0
    };
    let commission_amount = match commission_rate.mul_amount(before_commission_deduction) {
        Ok(a) => a,
        Err(e) => {
            return Err(e);
        },
    };
    Ok(SwapQuote { amount: offer_amount, spread_amount, commission_amount })
}

/// A quote as the triple of its amounts.
pub open spec fn quote_triple(r: Result<SwapQuote, PairError>) -> Result<
    (u128, u128, u128),
    PairError,
> {
    match r {
        Ok(q) => Ok((q.amount, q.spread_amount, q.commission_amount)),
        Err(e) => Err(e),
    }
}

/// The forward quote for a commission rate given as text.
pub open spec fn spec_compute_swap(
    offer_pool: u128,
    offer_weight: nat,
    ask_pool: u128,
    ask_weight: nat,
    offer_amount: u128,
    commission_rate: Seq<char>,
) -> Result<(u128, u128, u128), PairError> {
    if offer_amount == 0 {
        Ok((0u128, 0u128, 0u128))
    } else {
        match decimal_parse(commission_rate) {
            None => Err(PairError::InvalidCommissionRate),
            Some(rate) => quote_triple(
                spec_swap_out(offer_pool, offer_weight, ask_pool, ask_weight, offer_amount, rate),
            ),
        }
    }
}

/// The forward quote as return amount, spread amount and commission amount,
/// for a commission rate given as a decimal text. Nothing offered gives
/// three zeros whatever the rate; otherwise a text that is no decimal is
/// turned down.
pub fn compute_swap(
    offer_pool: u128,
    offer_weight: Decimal256,
    ask_pool: u128,
    ask_weight: Decimal256,
    offer_amount: u128,
    commission_rate: String,
) -> (r: Result<(u128, u128, u128), PairError>)
    ensures
        r == spec_compute_swap(
            offer_pool,
            offer_weight@,
            ask_pool,
            ask_weight@,
            offer_amount,
            commission_rate@,
        ),
        offer_amount == 0 ==> r == Ok::<(u128, u128, u128), PairError>((0u128, 0u128, 0u128)),
        r matches Ok(t) ==> t.0 + t.2 <= u128::MAX,
{
    if offer_amount == 0 {
        return Ok((0, 0, 0));
    }
    let rate = match Decimal::parse(commission_rate.as_str()) {
        Some(d) => d,
        None => {
            return Err(PairError::InvalidCommissionRate);
        },
    };
    match swap_out(offer_pool, offer_weight, ask_pool, ask_weight, offer_amount, rate) {
        Ok(q) => Ok((q.amount, q.spread_amount, q.commission_amount)),
        Err(e) => Err(e),
    }
}

/// The reverse quote for a commission rate given as text.
pub open spec fn spec_compute_offer_amount(
    offer_pool: u128,
    offer_weight: nat,
    ask_pool: u128,
    ask_weight: nat,
    ask_amount: u128,
    commission_rate: Seq<char>,
) -> Result<(u128, u128, u128), PairError> {
    match decimal_parse(commission_rate) {
        None => Err(PairError::InvalidCommissionRate),
        Some(rate) => quote_triple(
            spec_swap_in(offer_pool, offer_weight, ask_pool, ask_weight, ask_amount, rate),
        ),
    }
}

/// The reverse quote as offer amount, spread amount and commission amount,
/// for a commission rate given as a decimal text.
pub fn compute_offer_amount(
    offer_pool: u128,
    offer_weight: Decimal256,
    ask_pool: u128,
    ask_weight: Decimal256,
    ask_amount: u128,
    commission_rate: String,
) -> (r: Result<(u128, u128, u128), PairError>)
    ensures
        r == spec_compute_offer_amount(
            offer_pool,
            offer_weight@,
            ask_pool,
            ask_weight@,
            ask_amount,
            commission_rate@,
        ),
{
    let rate = match Decimal::parse(commission_rate.as_str()) {
        Some(d) => d,
        None => {
            return Err(PairError::InvalidCommissionRate);
        },
    };
    match swap_in(offer_pool, offer_weight, ask_pool, ask_weight, ask_amount, rate) {
        Ok(q) => Ok((q.amount, q.spread_amount, q.commission_amount)),
        Err(e) => Err(e),
    }
}

} // verus!
