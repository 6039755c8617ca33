use lbp_pair::decimal::{multiply_ratio, Decimal};
use lbp_pair::error::PairError;
use lbp_pair::guard::assert_slippage_tolerance;
use lbp_pair::liquidity::{mint_amount, redeem_amounts};
use lbp_pair::uint256::Uint256;

#[test]
fn first_deposit_share() {
    assert_eq!(mint_amount(0, [100, 100], [0, 0]), Ok(100));
    assert_eq!(mint_amount(0, [100, 100], [5, 7]), Ok(100));
    assert_eq!(
        mint_amount(0, [u128::MAX, u128::MAX], [0, 0]),
        Ok(u128::MAX)
    );
    assert_eq!(mint_amount(0, [2, 1], [0, 0]), Ok(1));
    assert_eq!(mint_amount(0, [3, 3], [0, 0]), Ok(3));
    assert_eq!(mint_amount(0, [5, 3], [0, 0]), Ok(3));
    assert_eq!(mint_amount(0, [4, 4], [0, 0]), Ok(4));
    assert_eq!(mint_amount(0, [0, 77], [0, 0]), Ok(0));
    assert_eq!(
        mint_amount(
            0,
            [100_000000000000000000u128, 100_000000000000000000u128],
            [0, 0]
        ),
        Ok(100_000000000000000000u128)
    );
    assert_eq!(mint_amount(0, [u128::MAX, 1], [0, 0]), Ok((1u128 << 64) - 1));
}

#[test]
fn proportional_deposit() {
    // min(100 * 100 / 200, 100 * 100 / 300)
    assert_eq!(mint_amount(100, [100, 100], [200, 300]), Ok(33));
    assert_eq!(mint_amount(100, [100, 100], [300, 200]), Ok(33));
    // 100 * (100 / 200)
    assert_eq!(
        mint_amount(
            100_000000000000000000u128,
            [100_000000000000000000u128, 200_000000000000000000u128],
            [200_000000000000000000u128, 200_000000000000000000u128]
        ),
        Ok(50_000000000000000000u128)
    );
    // an empty pool has no proportion
    assert_eq!(
        mint_amount(100, [100, 100], [0, 300]),
        Err(PairError::Arithmetic)
    );
    assert_eq!(
        mint_amount(100, [100, 100], [200, 0]),
        Err(PairError::Arithmetic)
    );
    // a share beyond 128 bits is cut to the largest amount
    assert_eq!(
        mint_amount(u128::MAX, [u128::MAX, u128::MAX], [1, 1]),
        Ok(u128::MAX)
    );
    assert_eq!(mint_amount(u128::MAX, [u128::MAX, 5], [1, 1u128 << 127]), Ok(9));
}

#[test]
fn redemption() {
    assert_eq!(redeem_amounts(100, 100, [100, 100]), Ok([100, 100]));
    assert_eq!(redeem_amounts(777, 777, [12345, 0]), Ok([12345, 0]));
    assert_eq!(
        redeem_amounts(u128::MAX, u128::MAX, [u128::MAX, 1]),
        Ok([u128::MAX, 1])
    );
    assert_eq!(redeem_amounts(1, 3, [3, 10]), Ok([1, 3]));
    assert_eq!(redeem_amounts(0, 3, [3, 10]), Ok([0, 0]));
    assert_eq!(redeem_amounts(1, 0, [3, 10]), Err(PairError::Arithmetic));
    assert_eq!(
        redeem_amounts(2, 1, [u128::MAX, 10]),
        Err(PairError::Arithmetic)
    );
}

#[test]
fn ratio_of_amounts() {
    assert_eq!(multiply_ratio(10, 3, 4), Ok(7));
    assert_eq!(multiply_ratio(u128::MAX, u128::MAX, u128::MAX), Ok(u128::MAX));
    assert_eq!(multiply_ratio(u128::MAX, 2, 2), Ok(u128::MAX));
    assert_eq!(multiply_ratio(u128::MAX, 2, 1), Err(PairError::Arithmetic));
    assert_eq!(multiply_ratio(1u128 << 127, 2, 1), Err(PairError::Arithmetic));
    assert_eq!(multiply_ratio((1u128 << 127) - 1, 2, 1), Ok(u128::MAX - 1));
    assert_eq!(multiply_ratio(1, 1, 0), Err(PairError::Arithmetic));
    assert_eq!(multiply_ratio(0, 0, 1), Ok(0));
}

#[test]
fn decimals_of_128_bits() {
    assert_eq!(Decimal::percent(1).atomics, 10_000_000_000_000_000);
    assert_eq!(Decimal::permille(3).atomics, 3_000_000_000_000_000);
    assert_eq!(Decimal::one().atomics, 1_000_000_000_000_000_000);
    assert_eq!(Decimal::parse("0.0015"), Some(Decimal { atomics: 1_500_000_000_000_000 }));
    assert_eq!(Decimal::parse("1"), Some(Decimal::one()));
    assert_eq!(Decimal::parse("1.5"), Some(Decimal::percent(150)));
    assert_eq!(Decimal::parse("1.2.3"), None);
    assert_eq!(Decimal::parse(""), None);
    assert_eq!(Decimal::parse("-1"), None);
    assert_eq!(
        Decimal::from_ratio(1200, 1),
        Ok(Decimal { atomics: 1_200_000_000_000_000_000_000 })
    );
    assert_eq!(
        Decimal::from_ratio(1, 3),
        Ok(Decimal { atomics: 333_333_333_333_333_333 })
    );
    assert_eq!(Decimal::from_ratio(1, 0), Err(PairError::Arithmetic));
    assert_eq!(Decimal::from_ratio(u128::MAX, 1), Err(PairError::Arithmetic));
    assert_eq!(Decimal::percent(2).mul_amount(1_000_000_000), Ok(20_000_000));
    assert_eq!(Decimal::percent(150).mul_amount(3), Ok(4));
    assert_eq!(
        Decimal::percent(200).mul_amount(u128::MAX),
        Err(PairError::Arithmetic)
    );
    assert_eq!(Decimal::percent(150).widen().to_text(), "1.5");
    assert_eq!(
        Decimal::percent(150).widen().narrow(),
        Some(Decimal::percent(150))
    );
}

#[test]
fn integers_of_256_bits() {
    let big = Uint256 { limbs: [0, 0, 1, 0] };
    assert_eq!(big.to_u128(), None);
    assert_eq!(big.low(), 0);
    assert_eq!(big.high(), 1);
    assert!(!big.is_zero());
    assert!(Uint256::from_u128(0).is_zero());
    assert_eq!(Uint256::from_u128(u128::MAX).limbs, [u64::MAX, u64::MAX, 0, 0]);
    assert_eq!(Uint256::from_u128(u128::MAX).to_u128(), Some(u128::MAX));
    // two to the power 128, times two to the power 127, fits; times two to
    // the power 128 does not
    assert!(big.mul_fits(1u128 << 127));
    assert!(big.mul_fits(u128::MAX));
    let bigger = Uint256 { limbs: [1, 0, 1, 0] };
    assert!(bigger.mul_fits(u128::MAX));
    let top = Uint256 { limbs: [0, 0, 0, 1] };
    assert!(top.mul_fits((1u128 << 64) - 1));
    assert!(!top.mul_fits(1u128 << 64));
    let all = Uint256 { limbs: [u64::MAX; 4] };
    assert!(all.mul_fits(1));
    assert!(!all.mul_fits(2));
    assert!(all.mul_fits(0));
}

#[test]
fn slippage_tolerance() {
    let one_percent = Some(Decimal::percent(1));
    // pools at 1:1; 98:100 is off by more than a hundredth either way round
    assert_eq!(
        assert_slippage_tolerance(
            &one_percent,
            &[98_000000000000000000u128, 100_000000000000000000u128],
            &[100_000000000000000000u128, 100_000000000000000000u128]
        ),
        Err(PairError::SlippageToleranceExceeded)
    );
    assert_eq!(
        assert_slippage_tolerance(
            &one_percent,
            &[100_000000000000000000u128, 98_000000000000000000u128],
            &[100_000000000000000000u128, 100_000000000000000000u128]
        ),
        Err(PairError::SlippageToleranceExceeded)
    );
    // 99:100 is not
    assert_eq!(
        assert_slippage_tolerance(
            &one_percent,
            &[99_000000000000000000u128, 100_000000000000000000u128],
            &[100_000000000000000000u128, 100_000000000000000000u128]
        ),
        Ok(())
    );
    assert_eq!(
        assert_slippage_tolerance(
            &one_percent,
            &[100_000000000000000000u128, 99_000000000000000000u128],
            &[100_000000000000000000u128, 100_000000000000000000u128]
        ),
        Ok(())
    );
    // without a tolerance nothing is checked
    assert_eq!(assert_slippage_tolerance(&None, &[1, 1000], &[0, 0]), Ok(()));
    // a tolerance above one
    assert_eq!(
        assert_slippage_tolerance(
            &Some(Decimal { atomics: 1_000_000_000_000_000_001 }),
            &[1, 1],
            &[1, 1]
        ),
        Err(PairError::SlippageToleranceTooLarge)
    );
    // a tolerance of one lets everything through that has a price
    assert_eq!(
        assert_slippage_tolerance(&Some(Decimal::one()), &[1, 1000], &[1000, 1]),
        Ok(())
    );
    // empty pools have no price
    assert_eq!(
        assert_slippage_tolerance(&one_percent, &[1, 1], &[0, 0]),
        Err(PairError::Arithmetic)
    );
    assert_eq!(
        assert_slippage_tolerance(&one_percent, &[1, 1], &[5, 0]),
        Err(PairError::Arithmetic)
    );
    assert_eq!(
        assert_slippage_tolerance(&one_percent, &[1, 10_000_000_000_000_000_000], &[0, 5]),
        Err(PairError::Arithmetic)
    );
    // the first price is looked at first
    assert_eq!(
        assert_slippage_tolerance(&one_percent, &[9, 1], &[0, 5]),
        Err(PairError::SlippageToleranceExceeded)
    );
    // the largest amounts are in range
    assert_eq!(
        assert_slippage_tolerance(
            &Some(Decimal::zero()),
            &[u128::MAX, 1],
            &[u128::MAX, 1]
        ),
        Ok(())
    );
}

#[test]
fn deposit_in_proportion_passes() {
    for tolerance in [Decimal::zero(), Decimal::percent(1), Decimal::one()] {
        for pools in [[1u128, 1u128], [3, 7], [u128::MAX, 1], [1, u128::MAX], [u128::MAX, u128::MAX]] {
            assert_eq!(
                assert_slippage_tolerance(&Some(tolerance), &pools, &pools),
                Ok(())
            );
        }
    }
}

#[test]
fn refund_is_at_most_the_pool() {
    for (burn, total) in [(0u128, 1u128), (1, 3), (2, 3), (3, 3), (u128::MAX - 1, u128::MAX)] {
        let pools = [u128::MAX, 12345];
        let refunds = redeem_amounts(burn, total, pools).unwrap();
        assert!(refunds[0] <= pools[0]);
        assert!(refunds[1] <= pools[1]);
    }
}
