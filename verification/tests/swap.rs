use lbp_pair::decimal::Decimal;
use lbp_pair::decimal256::Decimal256;
use lbp_pair::error::PairError;
use lbp_pair::guard::assert_max_spread;
use lbp_pair::math::{
    amount_in_from_power, amount_out_from_power, calc_in_given_out, calc_out_given_in,
    decimal_from_ratio, decimal_to_fixed, fixed_pow, uint2dec,
};
use lbp_pair::fixed::FixedFloat;
use lbp_pair::swap::{
    compute_offer_amount, compute_swap, get_ask_by_spot_price, swap_in, swap_out, SwapQuote,
};

const ONE: i128 = 1i128 << 64;

#[test]
fn test_max_spread() {
    assert_max_spread(
        Some(Decimal::from_ratio(1200u128, 1u128).unwrap()),
        Some(Decimal::percent(1)),
        1200000000u128,
        989999u128,
        0u128,
    )
    .unwrap_err();

    assert_max_spread(
        Some(Decimal::from_ratio(1200u128, 1u128).unwrap()),
        Some(Decimal::percent(1)),
        1200000000u128,
        990000u128,
        0u128,
    )
    .unwrap();

    assert_max_spread(
        None,
        Some(Decimal::percent(1)),
        0u128,
        989999u128,
        10001u128,
    )
    .unwrap_err();

    assert_max_spread(
        None,
        Some(Decimal::percent(1)),
        0u128,
        990000u128,
        10000u128,
    )
    .unwrap();
}

#[test]
fn max_spread_errors_are_told_apart() {
    assert_eq!(
        assert_max_spread(
            Some(Decimal::from_ratio(1200u128, 1u128).unwrap()),
            Some(Decimal::percent(1)),
            1200000000u128,
            989999u128,
            0u128,
        ),
        Err(PairError::MaxSpreadExceeded)
    );
    // no limit, no check
    assert_eq!(assert_max_spread(None, None, 1, 0, 1000), Ok(()));
    assert_eq!(
        assert_max_spread(Some(Decimal::one()), None, 1, 0, 1000),
        Ok(())
    );
    // a belief price of zero cannot be inverted
    assert_eq!(
        assert_max_spread(Some(Decimal::zero()), Some(Decimal::percent(1)), 1, 1, 0),
        Err(PairError::Arithmetic)
    );
    // nothing returned and no spread: nothing to take a share of
    assert_eq!(
        assert_max_spread(None, Some(Decimal::percent(1)), 0, 0, 0),
        Err(PairError::Arithmetic)
    );
    // return and spread together leave 128 bits
    assert_eq!(
        assert_max_spread(None, Some(Decimal::percent(1)), 0, u128::MAX, 1),
        Err(PairError::Arithmetic)
    );
    // the expected return leaves 128 bits
    assert_eq!(
        assert_max_spread(
            Some(Decimal { atomics: 1 }),
            Some(Decimal::percent(1)),
            u128::MAX,
            1,
            0
        ),
        Err(PairError::Arithmetic)
    );
}

#[test]
fn compute_swap_rounding() {
    let offer_pool = 5_000_000_000_000_000_u128;
    let offer_weight = Decimal256::one();
    let ask_pool = 1_000_000_000_000_u128;
    let ask_weight = Decimal256::one();
    let offer_amount = 1_u128;
    let commission_rate = "0.0015";

    let return_amount = 0_u128;
    let spread_amount = 0_u128;
    let commission_amount = 0_u128;

    assert_eq!(
        compute_swap(
            offer_pool,
            offer_weight,
            ask_pool,
            ask_weight,
            offer_amount,
            commission_rate.to_string()
        ),
        Ok((return_amount, spread_amount, commission_amount))
    );
}

/// A plain generator of numbers, so that the same cases run every time.
fn next(state: &mut u64) -> u128 {
    *state = state
        .wrapping_mul(6364136223846793005)
        .wrapping_add(1442695040888963407);
    ((*state >> 11) as u128) << 20 | ((*state >> 40) as u128)
}

#[test]
fn compute_swap_test() {
    let mut state: u64 = 42;
    for _ in 0..300 {
        let offer_pool = 1_000_000 + next(&mut state) % (9_000_000_000_000_000_000u128 - 1_000_000);
        let ask_pool = 1_000_000 + next(&mut state) % (9_000_000_000_000_000_000u128 - 1_000_000);
        let offer_weight = uint2dec(1 + next(&mut state) % 49);
        let ask_weight = uint2dec(1 + next(&mut state) % 49);
        let offer_amount = 1 + next(&mut state) % 99_999_999_999u128;

        // Make sure there are no overflows
        compute_swap(
            offer_pool,
            offer_weight,
            ask_pool,
            ask_weight,
            offer_amount,
            "0.0015".to_string(),
        )
        .unwrap();
    }
}

#[test]
fn zero_offer_gives_zero_quote() {
    let quote = swap_out(
        30_000_000_000,
        uint2dec(1),
        20_000_000_000,
        uint2dec(1),
        0,
        Decimal::permille(3),
    );
    assert_eq!(
        quote,
        Ok(SwapQuote {
            amount: 0,
            spread_amount: 0,
            commission_amount: 0
        })
    );
    // even where nothing else makes sense
    assert_eq!(
        compute_swap(
            0,
            Decimal256::zero(),
            0,
            Decimal256::zero(),
            0,
            "no rate".to_string()
        ),
        Ok((0, 0, 0))
    );
    assert_eq!(
        calc_out_given_in(5, uint2dec(1), 7, Decimal256::zero(), 0),
        Ok(0)
    );
    // an empty offer pool has no ratio to raise
    assert_eq!(
        calc_out_given_in(0, uint2dec(1), 7, uint2dec(1), 5),
        Err(PairError::Arithmetic)
    );
}

#[test]
fn bad_commission_rate_is_rejected() {
    assert_eq!(
        compute_swap(
            1000,
            uint2dec(1),
            1000,
            uint2dec(1),
            10,
            "a lot".to_string()
        ),
        Err(PairError::InvalidCommissionRate)
    );
    assert_eq!(
        compute_offer_amount(
            1000,
            uint2dec(1),
            1000,
            uint2dec(1),
            10,
            "".to_string()
        ),
        Err(PairError::InvalidCommissionRate)
    );
}

#[test]
fn end_to_end_scenario() {
    // offer pool 30,000,000,000 at weight 1, ask pool 20,000,000,000 at
    // weight 1, commission 0.15%, offer 1,500,000,000
    let (return_amount, spread_amount, commission_amount) = compute_swap(
        30_000_000_000,
        uint2dec(1),
        20_000_000_000,
        uint2dec(1),
        1_500_000_000,
        "0.0015".to_string(),
    )
    .unwrap();
    let gross = return_amount + commission_amount;
    assert!(952_380_953u128.abs_diff(gross) < 10);
    // 952,380,953 * (1 - 0.0015)
    assert!((952_380_953u128 - 952_380_953u128 * 15 / 10000).abs_diff(return_amount) < 10);
    assert!(1_428_571u128.abs_diff(commission_amount) < 10);
    // at the spot price 1,500,000,000 would have fetched 1,000,000,000
    assert!((1_000_000_000u128 - 952_380_953u128).abs_diff(spread_amount) < 10);
    // exactly, with the power of exponent one being the base itself
    assert_eq!(gross, 952_380_952);
    assert_eq!(commission_amount, 1_428_571);
    assert_eq!(return_amount, 950_952_381);
}

#[test]
fn equal_weights_follow_the_constant_product() {
    let cases: [(u128, u128, u128); 4] = [
        (30_000_000_000, 20_000_000_000, 1_500_000_000),
        (250_000_000_000_000, 50_000_000_000_000_000, 10_000_000_000),
        (1_000_000, 1_000_000, 1),
        (777_777_777, 123_456_789_012, 55_555),
    ];
    for (offer_pool, ask_pool, offer_amount) in cases {
        let out = calc_out_given_in(
            offer_pool,
            uint2dec(7),
            ask_pool,
            uint2dec(7),
            offer_amount,
        )
        .unwrap();
        let closed = ask_pool - ask_pool * offer_pool / (offer_pool + offer_amount);
        assert!(out.abs_diff(closed) <= 1, "{} against {}", out, closed);
    }
}

#[test]
fn round_trip_never_asks_for_less() {
    let mut state: u64 = 7;
    for _ in 0..200 {
        let offer_pool = 1_000_000_000 + next(&mut state) % 1_000_000_000_000_000u128;
        let ask_pool = 1_000_000_000 + next(&mut state) % 1_000_000_000_000_000u128;
        let offer_weight = uint2dec(1 + next(&mut state) % 49);
        let ask_weight = uint2dec(1 + next(&mut state) % 49);
        let offer_amount = 1_000_000 + next(&mut state) % (offer_pool / 100);
        let rate = Decimal::parse("0.0015").unwrap();
        let forward = swap_out(
            offer_pool,
            offer_weight,
            ask_pool,
            ask_weight,
            offer_amount,
            rate,
        )
        .unwrap();
        let gross = forward.amount + forward.commission_amount;
        if gross == 0 {
            continue;
        }
        let back = calc_in_given_out(offer_pool, offer_weight, ask_pool, ask_weight, gross)
            .unwrap();
        // within a few parts in a million of what was offered
        let tolerance = offer_amount / 100_000 + 10;
        assert!(
            back.abs_diff(offer_amount) <= tolerance,
            "{} offered, {} asked back",
            offer_amount,
            back
        );
    }
}

#[test]
fn spread_is_never_negative_at_extreme_weights() {
    for (offer_weight, ask_weight) in [(49u128, 1u128), (1u128, 49u128)] {
        let quote = swap_out(
            50_000_000_000_000,
            uint2dec(offer_weight),
            250_000_000_000,
            uint2dec(ask_weight),
            1_000_000_000,
            Decimal::parse("0.0015").unwrap(),
        )
        .unwrap();
        let gross = quote.amount + quote.commission_amount;
        let spot = get_ask_by_spot_price(
            50_000_000_000_000,
            uint2dec(offer_weight),
            250_000_000_000,
            uint2dec(ask_weight),
            1_000_000_000,
        )
        .unwrap();
        assert_eq!(quote.spread_amount, spot.saturating_sub(gross));
    }
}

#[test]
fn spot_price_exact_values() {
    // (50000000 / 1) / (250000 / 1) * 10 units of nine digits
    assert_eq!(
        get_ask_by_spot_price(
            250_000_000_000_000,
            uint2dec(1),
            50_000_000_000_000_000,
            uint2dec(1),
            10_000_000_000
        ),
        Ok(2_000_000_000_000)
    );
    // (50_000_000 / 49) / (250_000 / 1) * 1 unit of nine digits, as 49 units
    // of nine digits would fetch 40816326530
    assert_eq!(
        get_ask_by_spot_price(
            250_000_000_000_000,
            uint2dec(1),
            50_000_000_000_000_000,
            uint2dec(49),
            10_000_000_000
        ),
        Ok(40_816_326_530)
    );
    assert_eq!(
        get_ask_by_spot_price(1, uint2dec(1), 1, Decimal256::zero(), 1),
        Err(PairError::Arithmetic)
    );
    assert_eq!(
        get_ask_by_spot_price(0, uint2dec(1), 1, uint2dec(1), 1),
        Err(PairError::Arithmetic)
    );
}

#[test]
fn amounts_from_a_given_power() {
    // one minus a half, times 1000
    assert_eq!(
        amount_out_from_power(1000, FixedFloat { bits: ONE / 2 }),
        Ok(500)
    );
    // rounded down
    assert_eq!(
        amount_out_from_power(1001, FixedFloat { bits: ONE / 2 }),
        Ok(500)
    );
    assert_eq!(amount_out_from_power(0, FixedFloat { bits: 3 * ONE }), Ok(0));
    // a power above one would pay a negative amount
    assert_eq!(
        amount_out_from_power(1000, FixedFloat { bits: ONE + 1 }),
        Err(PairError::Arithmetic)
    );
    // a balance of two to the power 63 has no fixed-point number
    assert_eq!(
        amount_out_from_power(1u128 << 63, FixedFloat { bits: ONE / 2 }),
        Err(PairError::Arithmetic)
    );
    assert_eq!(
        amount_out_from_power((1u128 << 63) - 1, FixedFloat { bits: 0 }),
        Ok((1u128 << 63) - 1)
    );
    // one and a half minus one, times 1001
    assert_eq!(
        amount_in_from_power(1001, FixedFloat { bits: ONE + ONE / 2 }),
        Ok(500)
    );
    assert_eq!(
        amount_in_from_power(1001, FixedFloat { bits: ONE - 1 }),
        Err(PairError::Arithmetic)
    );
    assert_eq!(
        amount_in_from_power(1001, FixedFloat { bits: i128::MIN }),
        Err(PairError::Arithmetic)
    );
    assert_eq!(
        amount_in_from_power(1u128 << 62, FixedFloat { bits: 3 * ONE }),
        Err(PairError::Arithmetic)
    );
}

#[test]
fn decimals_and_powers() {
    assert_eq!(uint2dec(3).limbs, [3_000_000_000_000_000_000u64, 0, 0, 0]);
    assert_eq!(
        decimal_from_ratio(1, 3).unwrap().limbs,
        [333_333_333_333_333_333u64, 0, 0, 0]
    );
    assert!(decimal_from_ratio(1, 0).is_err());
    assert_eq!(uint2dec(15).to_text(), "15");
    assert_eq!(decimal_from_ratio(31, 2).unwrap().to_text(), "15.5");
    assert_eq!(
        decimal_to_fixed(&decimal_from_ratio(1, 2).unwrap()),
        Some(FixedFloat { bits: ONE / 2 })
    );
    // two to the power 63 is out of range in fixed point
    assert_eq!(decimal_to_fixed(&uint2dec(1u128 << 63)), None);
    // a half to the power one, two and zero
    let half = decimal_from_ratio(1, 2).unwrap();
    assert_eq!(
        fixed_pow(&half, &uint2dec(1)),
        Ok(FixedFloat { bits: ONE / 2 })
    );
    assert_eq!(fixed_pow(&half, &uint2dec(0)), Ok(FixedFloat { bits: ONE }));
    // a base of zero is outside the domain
    assert_eq!(
        fixed_pow(&Decimal256::zero(), &uint2dec(5)),
        Err(PairError::Arithmetic)
    );
    assert_eq!(
        fixed_pow(&Decimal256::zero(), &uint2dec(1)),
        Err(PairError::Arithmetic)
    );
    assert_eq!(FixedFloat { bits: 0 }.pow(FixedFloat { bits: 0 }), None);
    let square = fixed_pow(&half, &uint2dec(2)).unwrap();
    assert!((square.bits - ONE / 4).abs() < ONE / 1_000_000);
    let root = fixed_pow(&uint2dec(4), &half).unwrap();
    assert!((root.bits - 2 * ONE).abs() < ONE / 1_000_000);
    // the smallest bases are outside the reach of the logarithm
    assert_eq!(
        FixedFloat { bits: 1 }.pow(FixedFloat { bits: 2 * ONE }),
        None
    );
    assert_eq!(
        FixedFloat { bits: 2 }.pow(FixedFloat { bits: 2 * ONE }),
        None
    );
    assert!(FixedFloat { bits: 3 }.pow(FixedFloat { bits: ONE / 2 }).is_some());
    // but not of the plain cases
    assert_eq!(
        FixedFloat { bits: 1 }.pow(FixedFloat { bits: ONE }),
        Some(FixedFloat { bits: 1 })
    );
    assert_eq!(
        FixedFloat { bits: 2 }.pow(FixedFloat { bits: 0 }),
        Some(FixedFloat { bits: ONE })
    );
    // and so are the largest exponents
    assert_eq!(
        FixedFloat { bits: ONE / 2 }.pow(FixedFloat {
            bits: (1i128 << 121) + 1
        }),
        None
    );
    assert!(FixedFloat { bits: ONE }
        .pow(FixedFloat { bits: 1i128 << 121 })
        .is_some());
    assert!(FixedFloat { bits: ONE }
        .pow(FixedFloat {
            bits: -(1i128 << 121)
        })
        .is_some());
    // a negative base has no logarithm
    assert_eq!(
        FixedFloat { bits: -ONE }.pow(FixedFloat { bits: 2 * ONE }),
        None
    );
    assert_eq!(
        FixedFloat { bits: -ONE }.pow(FixedFloat { bits: ONE }),
        None
    );
    // a power that leaves the range
    assert_eq!(
        FixedFloat { bits: 4 * ONE }.pow(FixedFloat { bits: 40 * ONE }),
        None
    );
}

#[test]
fn reverse_quote() {
    // at a rate of one or more nothing can be kept
    assert_eq!(
        swap_in(1000, uint2dec(1), 1000, uint2dec(1), 10, Decimal::one()),
        Err(PairError::Arithmetic)
    );
    // the whole pool cannot be bought
    assert_eq!(
        swap_in(
            1_000_000,
            uint2dec(1),
            1_000_000,
            uint2dec(1),
            1_000_000,
            Decimal::zero()
        ),
        Err(PairError::InsufficientLiquidity)
    );
    assert_eq!(
        calc_in_given_out(1_000_000, uint2dec(1), 1_000_000, uint2dec(1), 1_000_001),
        Err(PairError::InsufficientLiquidity)
    );
    // half the ask pool at equal weights costs the whole offer pool
    let quote = swap_in(
        1_000_000,
        uint2dec(1),
        1_000_000,
        uint2dec(1),
        500_000,
        Decimal::zero(),
    )
    .unwrap();
    assert_eq!(quote.amount, 1_000_000);
    assert_eq!(quote.commission_amount, 0);
    // at the spot price 1,000,000 would fetch 1,000,000: 500,000 more
    assert_eq!(quote.spread_amount, 500_000);
}

#[test]
fn power_at_the_edges_of_its_domain() {
    let max_exponent = 1i128 << 121;
    let bases: [i128; 9] = [
        3,
        4,
        ONE / 2,
        ONE - 1,
        ONE,
        ONE + 1,
        2 * ONE,
        i128::MAX - 1,
        i128::MAX,
    ];
    let exponents: [i128; 10] = [
        -max_exponent,
        -ONE,
        -1,
        0,
        1,
        ONE / 50,
        ONE,
        50 * ONE,
        max_exponent - 1,
        max_exponent,
    ];
    for base in bases {
        for exponent in exponents {
            // whatever comes back, it comes back
            let power = FixedFloat { bits: base }.pow(FixedFloat { bits: exponent });
            if exponent == 0 {
                assert_eq!(power, Some(FixedFloat { bits: ONE }));
            }
            if exponent == ONE {
                assert_eq!(power, Some(FixedFloat { bits: base }));
            }
        }
    }
    let mut state: u64 = 2024;
    for _ in 0..3000 {
        let base = 3 + (next(&mut state) as i128) % (i128::MAX - 3);
        let magnitude = (next(&mut state) as i128) % (max_exponent + 1);
        let exponent = if next(&mut state) % 2 == 0 {
            magnitude
        } else {
            -magnitude
        };
        let shift = next(&mut state) % 120;
        let _ = FixedFloat { bits: base >> shift.min(100) }
            .pow(FixedFloat {
                bits: exponent >> shift,
            });
    }
}

#[test]
fn rounding_of_the_ratio_shows_at_large_balances() {
    // a third has no exact decimal of eighteen digits; what is lost of it
    // comes to three units of a balance of nine times ten to the power 18
    let out = calc_out_given_in(
        1,
        uint2dec(1),
        9_000_000_000_000_000_000,
        uint2dec(1),
        2,
    )
    .unwrap();
    assert_eq!(out, 6_000_000_000_000_000_003);
}

#[test]
fn product_of_two_negative_factors() {
    let mul = |a: i128, b: i128| FixedFloat { bits: a }.checked_mul(FixedFloat { bits: b });
    assert_eq!(mul(-ONE, -ONE), Some(FixedFloat { bits: ONE }));
    assert_eq!(mul(-3 * ONE, -ONE / 2), Some(FixedFloat { bits: 3 * ONE / 2 }));
    // three units times a half is a unit and a half, rounded down
    assert_eq!(mul(-3, -ONE / 2), Some(FixedFloat { bits: 1 }));
    assert_eq!(mul(-1, -1), Some(FixedFloat { bits: 0 }));
    // the cross products of these two go below zero together
    let low = i128::MIN + ONE - 1;
    assert_eq!(mul(low, low), None);
    assert_eq!(mul(low, -1), Some(FixedFloat { bits: (1i128 << 63) - 1 }));
    assert_eq!(mul(-1, low), Some(FixedFloat { bits: (1i128 << 63) - 1 }));
    assert_eq!(mul(-ONE - 1, -ONE - 1), Some(FixedFloat { bits: ONE + 2 }));
    // the least number has no magnitude of its own
    assert_eq!(mul(i128::MIN, -1), Some(FixedFloat { bits: 1i128 << 63 }));
    assert_eq!(mul(-1, i128::MIN), Some(FixedFloat { bits: 1i128 << 63 }));
    assert_eq!(
        mul(i128::MIN, -ONE + 1),
        Some(FixedFloat {
            bits: i128::MAX - (1i128 << 63) + 1
        })
    );
    assert_eq!(mul(i128::MIN, -ONE), None);
    assert_eq!(mul(i128::MIN, i128::MIN), None);
    // one negative factor rounds away from zero
    assert_eq!(mul(-1, 1), Some(FixedFloat { bits: -1 }));
    assert_eq!(mul(-3, ONE / 2), Some(FixedFloat { bits: -2 }));
    assert_eq!(mul(i128::MIN, ONE), Some(FixedFloat { bits: i128::MIN }));
    assert_eq!(mul(i128::MIN, 2 * ONE), None);
    assert_eq!(mul(i128::MAX, -ONE), Some(FixedFloat { bits: -i128::MAX }));
    assert_eq!(mul(i128::MAX, i128::MAX), None);
    assert_eq!(mul(0, i128::MIN), Some(FixedFloat { bits: 0 }));
    // a sweep over negative pairs: the product of the magnitudes
    let mut state: u64 = 99;
    for _ in 0..2000 {
        let a = -((next(&mut state) as i128) << (next(&mut state) % 50)) - 1;
        let b = -((next(&mut state) as i128) << (next(&mut state) % 50)) - 1;
        assert_eq!(mul(a, b), mul(-a, -b));
    }
}

#[test]
fn constant_product_is_met_to_a_few_units_only() {
    // a ratio of one third, inside the range of everyday pools: what the
    // eighteen digits and the 64 bits lose of it comes to more than a unit
    let out = calc_out_given_in(
        1_000_000,
        uint2dec(1),
        8_000_000_000_000_000_000,
        uint2dec(1),
        2_000_000,
    )
    .unwrap();
    let closed = 8_000_000_000_000_000_000u128
        - 8_000_000_000_000_000_000u128 * 1_000_000 / 3_000_000;
    assert_eq!(closed, 5_333_333_333_333_333_334);
    assert_eq!(out, closed + 2);
}

#[test]
fn round_trip_can_ask_for_a_unit_less() {
    let offer_pool = 327_853_282_048_939u128;
    let ask_pool = 833_908_446_630_208u128;
    let weight = uint2dec(46);
    let offer_amount = 1_425_623_181_505u128;
    let (return_amount, _, commission_amount) = compute_swap(
        offer_pool,
        weight,
        ask_pool,
        weight,
        offer_amount,
        "0.0015".to_string(),
    )
    .unwrap();
    assert_eq!(return_amount + commission_amount, 3_610_432_353_499);
    let (asked, _, commission) = compute_offer_amount(
        offer_pool,
        weight,
        ask_pool,
        weight,
        return_amount + commission_amount,
        "0".to_string(),
    )
    .unwrap();
    assert_eq!(commission, 0);
    assert_eq!(asked, offer_amount - 1);
}

#[test]
fn constant_product_is_met_within_its_bounds() {
    // at equal weights: at most two less than the constant product, and at
    // most one more for every ten to the power 18 units of the pool, and one
    let mut state: u64 = 31;
    for round in 0..1500 {
        let offer_pool = 1 + next(&mut state) % 9_000_000_000_000_000_000u128;
        let ask_pool = 1 + next(&mut state) % 9_000_000_000_000_000_000u128;
        let offer_amount = if round % 2 == 0 {
            1 + next(&mut state) % 100_000_000_000u128
        } else {
            1 + next(&mut state) % (2 * offer_pool)
        };
        let weight = uint2dec(1 + next(&mut state) % 49);
        let out = calc_out_given_in(offer_pool, weight, ask_pool, weight, offer_amount).unwrap();
        let closed = ask_pool - mul_div(ask_pool, offer_pool, offer_pool + offer_amount);
        assert!(out + 2 >= closed, "{} against {}", out, closed);
        assert!(
            out <= closed + ask_pool / 1_000_000_000_000_000_000 + 1,
            "{} against {}",
            out,
            closed
        );
    }
}

/// `a * b / c` for numbers whose product is beyond 128 bits.
fn mul_div(a: u128, b: u128, c: u128) -> u128 {
    lbp_pair::decimal::multiply_ratio(a, b, c).unwrap()
}
