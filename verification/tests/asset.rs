use lbp_pair::asset::{tax_amount, Asset, AssetInfo};
use lbp_pair::decimal::Decimal;
use lbp_pair::error::PairError;

#[test]
fn test_asset() {
    let tax_rate = Decimal::percent(1);
    let tax_cap = 1000000u128;

    let token_asset = Asset {
        amount: 123123u128,
        info: AssetInfo::Token {
            contract_addr: "asset0000".to_string(),
        },
    };

    let native_token_asset = Asset {
        amount: 123123u128,
        info: AssetInfo::NativeToken {
            denom: "uusd".to_string(),
        },
    };

    assert_eq!(token_asset.compute_tax(tax_rate, tax_cap).unwrap(), 0u128);
    assert_eq!(
        native_token_asset.compute_tax(tax_rate, tax_cap).unwrap(),
        1220u128
    );

    let coin = native_token_asset.deduct_tax(tax_rate, tax_cap).unwrap();
    assert_eq!(coin.denom, "uusd".to_string());
    assert_eq!(coin.amount, 121903u128);

    assert_eq!(
        token_asset.deduct_tax(tax_rate, tax_cap).unwrap_err(),
        PairError::TaxOnToken
    );
    assert_eq!(
        token_asset
            .deduct_tax(tax_rate, tax_cap)
            .unwrap_err()
            .message(),
        "cannot deduct tax from token asset"
    );
}

#[test]
fn test_deduct() {
    let tax_rate = Decimal::percent(2);
    let tax_cap = 1_000_000u128;

    let amount = 1000_000_000u128;
    let expected_after_amount = std::cmp::max(
        amount
            .checked_sub(tax_rate.mul_amount(amount).unwrap())
            .unwrap(),
        amount.checked_sub(tax_cap).unwrap(),
    );

    let after_amount = (Asset {
        info: AssetInfo::NativeToken {
            denom: "uusd".to_string(),
        },
        amount,
    })
    .deduct_tax(tax_rate, tax_cap)
    .unwrap();

    assert_eq!(expected_after_amount, after_amount.amount);
}

#[test]
fn tax_of_the_untaxed() {
    let luna = Asset {
        info: AssetInfo::NativeToken {
            denom: "uluna".to_string(),
        },
        amount: 5_000_000,
    };
    assert!(!luna.is_taxed());
    assert_eq!(luna.compute_tax(Decimal::percent(2), 1_000_000), Ok(0));
    let coin = luna.deduct_tax(Decimal::percent(2), 1_000_000).unwrap();
    assert_eq!(coin.amount, 5_000_000);
    assert_eq!(coin.denom, "uluna");
    let token = Asset {
        info: AssetInfo::Token {
            contract_addr: "uusd".to_string(),
        },
        amount: 5_000_000,
    };
    assert!(!token.is_taxed());
    let usd = Asset {
        info: AssetInfo::NativeToken {
            denom: "uusd".to_string(),
        },
        amount: 5_000_000,
    };
    assert!(usd.is_taxed());
}

#[test]
fn tax_exact_values() {
    // 1000 - 1000 / 1.02 = 1000 - 980 = 20, the quotient rounded down
    assert_eq!(tax_amount(1000, Decimal::percent(2), 1_000_000), Ok(20));
    // under the cap
    assert_eq!(tax_amount(1000, Decimal::percent(2), 7), Ok(7));
    assert_eq!(tax_amount(1000, Decimal::zero(), 7), Ok(0));
    assert_eq!(tax_amount(0, Decimal::percent(2), 7), Ok(0));
    assert_eq!(
        tax_amount(u128::MAX, Decimal::one(), u128::MAX),
        Ok(u128::MAX - u128::MAX / 2)
    );
    // one plus the rate leaves 128 bits
    assert_eq!(
        tax_amount(1000, Decimal { atomics: u128::MAX }, 7),
        Err(PairError::Arithmetic)
    );
}
