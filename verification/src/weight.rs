//! The weight of an asset at a moment of its schedule: a straight line from
//! the start weight at the start time to the end weight at the end time.

use vstd::prelude::*;
use vstd::arithmetic::div_mod::{lemma_div_is_ordered, lemma_div_multiples_vanish};
use crate::decimal256::{decimal_fractional, decimal_outcome, Decimal256};
use crate::error::PairError;
use crate::math::uint2dec;
use crate::uint256::{full_mul, pow2_256, Uint256};

verus! {

/// The distance between the two weights.
pub open spec fn weight_change(start_weight: u128, end_weight: u128) -> nat {
    if end_weight > start_weight {
        (end_weight - start_weight) as nat
    } else {
        (start_weight - end_weight) as nat
    }
}

/// How far the weight has moved from the start weight after `elapsed` of
/// `span` seconds, in atomic units of a decimal, rounded down.
pub open spec fn weight_moved(change: nat, elapsed: nat, span: nat) -> nat {
    (change * elapsed * decimal_fractional()) / span
}

/// The weight at `block_time`, as the atomic count of a decimal.
///
/// Before the start the sale has not started, after the end it has finished.
/// A window without length has no weights.
pub open spec fn spec_current_weight(
    start_weight: u128,
    end_weight: u128,
    start_time: u64,
    end_time: u64,
    block_time: u64,
) -> Result<nat, PairError> {
    if block_time < start_time {
        Err(PairError::NotStarted)
    } else if block_time > end_time {
        Err(PairError::Finished)
    } else if end_time == start_time {
        Err(PairError::Arithmetic)
    } else {
        let change = weight_change(start_weight, end_weight);
        let elapsed = (block_time - start_time) as nat;
        let span = (end_time - start_time) as nat;
        if end_weight > start_weight {
            Ok(start_weight as nat * decimal_fractional() + weight_moved(change, elapsed, span))
        } else {
            Ok(
                (start_weight as nat * decimal_fractional() - weight_moved(
                    change,
                    elapsed,
                    span,
                )) as nat,
            )
        }
    }
}

/// The weight never moves further than the whole change.
pub proof fn lemma_moved_bound(change: nat, elapsed: nat, span: nat)
    requires
        0 < span,
        elapsed <= span,
    ensures
        weight_moved(change, elapsed, span) <= change * decimal_fractional(),
        elapsed == span ==> weight_moved(change, elapsed, span) == change * decimal_fractional(),
        elapsed == 0 ==> weight_moved(change, elapsed, span) == 0,
        elapsed < span && change > 0 ==> weight_moved(change, elapsed, span) < change
            * decimal_fractional(),
{
    let d = decimal_fractional() as int;
    let c = change as int;
    let e = elapsed as int;
    let s = span as int;
    let full = c * d;
    assert(c * e * d <= full * s) by (nonlinear_arith)
        requires
            full == c * d,
            0 <= c,
            0 <= e <= s,
            0 < d,
    ;
    assert(0 <= c * e * d) by (nonlinear_arith)
        requires
            0 <= c,
            0 <= e,
            0 < d,
    ;
    lemma_div_is_ordered(c * e * d, full * s, s);
    lemma_div_multiples_vanish(full, s);
    assert(full * s == s * full) by (nonlinear_arith);
    assert((full * s) / s == full);
    if elapsed == span {
        assert(c * e * d == full * s) by (nonlinear_arith)
            requires
                full == c * d,
                e == s,
        ;
    }
    if elapsed == 0 {
        assert(c * e * d == 0) by (nonlinear_arith)
            requires
                e == 0,
        ;
    }
    if elapsed < span && change > 0 {
        assert(c * e * d < full * s) by (nonlinear_arith)
            requires
                full == c * d,
                1 <= c,
                0 <= e < s,
                0 < d,
        ;
        vstd::arithmetic::div_mod::lemma_div_by_multiple_is_strongly_ordered(
            c * e * d,
            full * s,
            full,
            s,
        );
    }
}

/// The weight of an asset at `block_time`: the point on the straight line
/// from `start_weight` at `start_time` to `end_weight` at `end_time`, rounded
/// towards the start weight to eighteen digits. The change of weight times
/// the elapsed time is taken in full width, so that every window with a
/// length has its weights.
pub fn get_current_weight(
    start_weight: u128,
    end_weight: u128,
    start_time: u64,
    end_time: u64,
    block_time: u64,
) -> (r: Result<Decimal256, PairError>)
    ensures
        decimal_outcome(r) == spec_current_weight(
            start_weight,
            end_weight,
            start_time,
            end_time,
            block_time,
        ),
        start_time < end_time && start_time <= block_time <= end_time ==> r is Ok,
{
    if block_time < start_time {
        return Err(PairError::NotStarted);
    }
    if block_time > end_time {
        return Err(PairError::Finished);
    }
    if end_time == start_time {
        return Err(PairError::Arithmetic);
    }
    let span: u64 = end_time - start_time;
    let elapsed: u64 = block_time - start_time;
    let rising = end_weight > start_weight;
    let change: u128 = if rising {
        end_weight - start_weight
    } else {
        start_weight - end_weight
    };
    let start_weight_fixed = uint2dec(start_weight);
    let scaled = Decimal256::from_atomics(full_mul(change, elapsed as u128));
    let time_diff = Decimal256::from_atomics(Uint256::from_u128(span as u128));
    proof {
        lemma_weight_arithmetic(start_weight, change, elapsed, span);
    }
    let ratio = match scaled.checked_div(&time_diff) {
        Ok(q) => q,
        Err(e) => {
            return Err(e);
        },
    };
    if rising {
        Ok(start_weight_fixed.add(&ratio))
    } else {
        Ok(start_weight_fixed.sub(&ratio))
    }
}

/// The facts of arithmetic on which `get_current_weight` rests: the product
/// can be scaled for the division without leaving 256 bits, and the sum and
/// the difference are in range.
proof fn lemma_weight_arithmetic(start_weight: u128, change: u128, elapsed: u64, span: u64)
    requires
        0 < span,
        elapsed <= span,
    ensures
        change as nat * elapsed as nat * decimal_fractional() < pow2_256(),
        start_weight as nat * decimal_fractional() + weight_moved(
            change as nat,
            elapsed as nat,
            span as nat,
        ) < pow2_256(),
        change <= start_weight ==> weight_moved(change as nat, elapsed as nat, span as nat)
            <= start_weight as nat * decimal_fractional(),
{
    let d = decimal_fractional() as int;
    let c = change as int;
    let e = elapsed as int;
    let top = 0xFFFF_FFFF_FFFF_FFFF_FFFF_FFFF_FFFF_FFFFint;
    assert(0 <= c * e <= top * 0xFFFF_FFFF_FFFF_FFFF) by (nonlinear_arith)
        requires
            0 <= c <= top,
            0 <= e <= 0xFFFF_FFFF_FFFF_FFFF,
    ;
    assert(c * e * d < pow2_256()) by (nonlinear_arith)
        requires
            0 <= c * e <= top * 0xFFFF_FFFF_FFFF_FFFF,
            top == 0xFFFF_FFFF_FFFF_FFFF_FFFF_FFFF_FFFF_FFFF,
            d == 1_000_000_000_000_000_000,
            pow2_256() == 0x1_0000_0000_0000_0000_0000_0000_0000_0000int
                * 0x1_0000_0000_0000_0000_0000_0000_0000_0000int,
    ;
    lemma_moved_bound(change as nat, elapsed as nat, span as nat);
    assert(c * d <= top * d) by (nonlinear_arith)
        requires
            c <= top,
            d > 0,
    ;
    assert(start_weight as int * d <= top * d) by (nonlinear_arith)
        requires
            start_weight as int <= top,
            d > 0,
    ;
    assert(2 * (top * d) < pow2_256()) by (nonlinear_arith)
        requires
            top == 0xFFFF_FFFF_FFFF_FFFF_FFFF_FFFF_FFFF_FFFF,
            d == 1_000_000_000_000_000_000,
            pow2_256() == 0x1_0000_0000_0000_0000_0000_0000_0000_0000int
                * 0x1_0000_0000_0000_0000_0000_0000_0000_0000int,
    ;
    if change <= start_weight {
        assert(c * d <= start_weight as int * d) by (nonlinear_arith)
            requires
                c <= start_weight as int,
                d > 0,
        ;
    }
}

/// The weight at a moment of a window with a length, as the atomic count of
/// a decimal.
pub open spec fn weight_at(
    start_weight: u128,
    end_weight: u128,
    start_time: u64,
    end_time: u64,
    block_time: u64,
) -> nat {
    spec_current_weight(start_weight, end_weight, start_time, end_time, block_time)->Ok_0
}

/// A weight as the atomic count of a decimal.
pub open spec fn whole_weight(weight: u128) -> nat {
    weight as nat * decimal_fractional()
}

/// At the start of the window an asset has exactly its start weight.
pub proof fn lemma_weight_at_start(start_weight: u128, end_weight: u128, start_time: u64, end_time: u64)
    requires
        start_time < end_time,
    ensures
        spec_current_weight(start_weight, end_weight, start_time, end_time, start_time) == Ok::<
            nat,
            PairError,
        >(whole_weight(start_weight)),
{
    let change = weight_change(start_weight, end_weight);
    let span = (end_time - start_time) as nat;
    lemma_moved_bound(change, 0, span);
}

/// At the end of the window an asset has exactly its end weight.
pub proof fn lemma_weight_at_end(start_weight: u128, end_weight: u128, start_time: u64, end_time: u64)
    requires
        start_time < end_time,
    ensures
        spec_current_weight(start_weight, end_weight, start_time, end_time, end_time) == Ok::<
            nat,
            PairError,
        >(whole_weight(end_weight)),
{
    let change = weight_change(start_weight, end_weight);
    let span = (end_time - start_time) as nat;
    let d = decimal_fractional() as int;
    lemma_moved_bound(change, span, span);
    if end_weight > start_weight {
        assert(start_weight as int * d + (end_weight - start_weight) * d == end_weight as int * d)
            by (nonlinear_arith);
    } else {
        assert(start_weight as int * d - (start_weight - end_weight) * d == end_weight as int * d)
            by (nonlinear_arith);
    }
}

/// Inside the window there is a weight, and it lies between the start weight
/// and the end weight. Before the end it differs from the end weight if the
/// two weights differ. It differs from the start weight exactly when the
/// movement so far comes to at least one atomic unit.
pub proof fn lemma_weight_between(
    start_weight: u128,
    end_weight: u128,
    start_time: u64,
    end_time: u64,
    block_time: u64,
)
    requires
        start_time <= block_time <= end_time,
        start_time < end_time,
    ensures
        spec_current_weight(start_weight, end_weight, start_time, end_time, block_time) is Ok,
        ({
            let w = weight_at(start_weight, end_weight, start_time, end_time, block_time);
            let from = whole_weight(start_weight);
            let to = whole_weight(end_weight);
            &&& if end_weight > start_weight {
                from <= w <= to
            } else {
                to <= w <= from
            }
            &&& (block_time < end_time && start_weight != end_weight ==> w != to)
            &&& (w != from) == (weight_change(start_weight, end_weight) * ((block_time
                - start_time) as nat) * decimal_fractional() >= (end_time - start_time) as nat)
        }),
{
    let change = weight_change(start_weight, end_weight);
    let elapsed = (block_time - start_time) as nat;
    let span = (end_time - start_time) as nat;
    let d = decimal_fractional() as int;
    lemma_moved_bound(change, elapsed, span);
    if end_weight > start_weight {
        assert(start_weight as int * d + (end_weight - start_weight) * d == end_weight as int * d)
            by (nonlinear_arith);
    } else {
        assert(start_weight as int * d - (start_weight - end_weight) * d == end_weight as int * d)
            by (nonlinear_arith);
    }
    let scaled = (change * elapsed * decimal_fractional()) as int;
    if scaled >= span {
        lemma_div_is_ordered(span as int, scaled, span as int);
        vstd::arithmetic::div_mod::lemma_div_basics(span as int);
    } else {
        vstd::arithmetic::div_mod::lemma_basic_div(scaled, span as int);
    }
}

/// Strictly inside a window of at most ten to the power 18 seconds, the
/// weight of an asset whose two weights differ lies strictly between them.
pub proof fn lemma_weight_strictly_between(
    start_weight: u128,
    end_weight: u128,
    start_time: u64,
    end_time: u64,
    block_time: u64,
)
    requires
        start_time < block_time < end_time,
        start_weight != end_weight,
        end_time - start_time <= 1_000_000_000_000_000_000,
    ensures
        spec_current_weight(start_weight, end_weight, start_time, end_time, block_time) is Ok,
        ({
            let w = weight_at(start_weight, end_weight, start_time, end_time, block_time);
            if end_weight > start_weight {
                whole_weight(start_weight) < w < whole_weight(end_weight)
            } else {
                whole_weight(end_weight) < w < whole_weight(start_weight)
            }
        }),
{
    lemma_weight_between(start_weight, end_weight, start_time, end_time, block_time);
    let c = weight_change(start_weight, end_weight) as int;
    let e = (block_time - start_time) as int;
    let d = decimal_fractional() as int;
    assert(c * e * d >= d) by (nonlinear_arith)
        requires
            c >= 1,
            e >= 1,
            d > 0,
    ;
}

/// The weight moves in one direction only: towards the end weight.
pub proof fn lemma_weight_monotonic(
    start_weight: u128,
    end_weight: u128,
    start_time: u64,
    end_time: u64,
    earlier: u64,
    later: u64,
)
    requires
        start_time <= earlier <= later <= end_time,
        start_time < end_time,
    ensures
        spec_current_weight(start_weight, end_weight, start_time, end_time, earlier) is Ok,
        spec_current_weight(start_weight, end_weight, start_time, end_time, later) is Ok,
        ({
            let first = weight_at(start_weight, end_weight, start_time, end_time, earlier);
            let second = weight_at(start_weight, end_weight, start_time, end_time, later);
            if end_weight > start_weight {
                first <= second
            } else {
                first >= second
            }
        }),
{
    let change = weight_change(start_weight, end_weight) as int;
    let e1 = (earlier - start_time) as int;
    let e2 = (later - start_time) as int;
    let span = (end_time - start_time) as int;
    let d = decimal_fractional() as int;
    assert(change * e1 <= change * e2) by (nonlinear_arith)
        requires
            0 <= change,
            0 <= e1 <= e2,
    ;
    assert(change * e1 * d <= change * e2 * d) by (nonlinear_arith)
        requires
            change * e1 <= change * e2,
            0 < d,
    ;
    assert(0 <= change * e1 * d) by (nonlinear_arith)
        requires
            0 <= change,
            0 <= e1,
            0 < d,
    ;
    lemma_div_is_ordered(change * e1 * d, change * e2 * d, span);
    lemma_moved_bound(change as nat, e1 as nat, span as nat);
    lemma_moved_bound(change as nat, e2 as nat, span as nat);
}

/// In a window of at most ten to the power 18 seconds, the weight of an
/// asset whose two weights differ is another at every second: larger at the
/// later of two moments if the weight rises, smaller if it falls.
pub proof fn lemma_weight_strictly_monotonic(
    start_weight: u128,
    end_weight: u128,
    start_time: u64,
    end_time: u64,
    earlier: u64,
    later: u64,
)
    requires
        start_time <= earlier < later <= end_time,
        start_weight != end_weight,
        end_time - start_time <= 1_000_000_000_000_000_000,
    ensures
        spec_current_weight(start_weight, end_weight, start_time, end_time, earlier) is Ok,
        spec_current_weight(start_weight, end_weight, start_time, end_time, later) is Ok,
        ({
            let first = weight_at(start_weight, end_weight, start_time, end_time, earlier);
            let second = weight_at(start_weight, end_weight, start_time, end_time, later);
            if end_weight > start_weight {
                first < second
            } else {
                first > second
            }
        }),
{
    let change = weight_change(start_weight, end_weight) as int;
    let e1 = (earlier - start_time) as int;
    let e2 = (later - start_time) as int;
    let span = (end_time - start_time) as int;
    let d = decimal_fractional() as int;
    let x = change * e1 * d;
    let y = change * e2 * d;
    assert(0 <= x) by (nonlinear_arith)
        requires
            x == change * e1 * d,
            0 <= change,
            0 <= e1,
            0 < d,
    ;
    // a second moves the scaled product by at least the length of the window
    assert(y >= x + span) by (nonlinear_arith)
        requires
            x == change * e1 * d,
            y == change * e2 * d,
            1 <= change,
            0 <= e1,
            e1 + 1 <= e2,
            span <= d,
            0 < d,
    ;
    lemma_div_is_ordered(x + span, y, span);
    vstd::arithmetic::div_mod::lemma_div_plus_one(x, span);
    lemma_moved_bound(change as nat, e1 as nat, span as nat);
    lemma_moved_bound(change as nat, e2 as nat, span as nat);
}

} // verus!
