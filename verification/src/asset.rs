//! The two kinds of asset that a pool can hold, and amounts of them.

use vstd::prelude::*;
use crate::decimal::{multiply_ratio, Decimal};
use crate::decimal256::DECIMAL_FRACTIONAL;
use crate::error::PairError;

verus! {

/// What identifies an asset: the address of a token contract, or the
/// denomination of a native coin.
#[derive(Clone, Debug)]
pub enum AssetInfo {
    Token { contract_addr: String },
    NativeToken { denom: String },
}

/// Whether two assets are the same: of the same kind and with the same
/// address or denomination, letter for letter.
pub open spec fn same_asset(a: AssetInfo, b: AssetInfo) -> bool {
    match (a, b) {
        (AssetInfo::Token { contract_addr: x }, AssetInfo::Token { contract_addr: y }) => x@ == y@,
        (AssetInfo::NativeToken { denom: x }, AssetInfo::NativeToken { denom: y }) => x@ == y@,
        _ => false,
    }
}

impl AssetInfo {
    /// Whether the asset is a native coin.
    pub fn is_native_token(&self) -> (r: bool)
        ensures
            r == (self is NativeToken),
    {
        match self {
            AssetInfo::NativeToken { .. } => true,
            AssetInfo::Token { .. } => false,
        }
    }

    /// Whether this is the same asset as the other.
    pub fn equal(&self, asset: &AssetInfo) -> (r: bool)
        ensures
            r == same_asset(*self, *asset),
    {
        match self {
            AssetInfo::Token { contract_addr } => {
                let self_contract_addr = contract_addr;
                match asset {
                    AssetInfo::Token { contract_addr } => *self_contract_addr == *contract_addr,
                    AssetInfo::NativeToken { .. } => false,
                }
            },
            AssetInfo::NativeToken { denom } => {
                let self_denom = denom;
                match asset {
                    AssetInfo::Token { .. } => false,
                    AssetInfo::NativeToken { denom } => *self_denom == *denom,
                }
            },
        }
    }

    /// The address or denomination.
    pub fn name(&self) -> (r: &String)
        ensures
            r@ == asset_name(*self),
    {
        match self {
            AssetInfo::NativeToken { denom } => denom,
            AssetInfo::Token { contract_addr } => contract_addr,
        }
    }

    /// A copy of the asset's identity.
    pub fn duplicate(&self) -> (r: AssetInfo)
        ensures
            same_asset(r, *self),
            r is NativeToken == self is NativeToken,
            asset_name(r) == asset_name(*self),
    {
        match self {
            AssetInfo::NativeToken { denom } => AssetInfo::NativeToken { denom: denom.clone() },
            AssetInfo::Token { contract_addr } => AssetInfo::Token {
                contract_addr: contract_addr.clone(),
            },
        }
    }
}

/// The address or denomination of an asset.
pub open spec fn asset_name(a: AssetInfo) -> Seq<char> {
    match a {
        AssetInfo::Token { contract_addr } => contract_addr@,
        AssetInfo::NativeToken { denom } => denom@,
    }
}

/// An amount of an asset.
#[derive(Clone, Debug)]
pub struct Asset {
    pub info: AssetInfo,
    pub amount: u128,
}

/// A pool's holding of an asset, with the weights between which the asset
/// moves.
#[derive(Clone, Debug)]
pub struct WeightedAsset {
    pub info: AssetInfo,
    pub amount: u128,
    pub start_weight: u128,
    pub end_weight: u128,
}

/// An asset with the weights between which it moves.
#[derive(Clone, Debug)]
pub struct WeightedAssetInfo {
    pub info: AssetInfo,
    pub start_weight: u128,
    pub end_weight: u128,
}

/// An amount of a native coin.
#[derive(Clone, Debug)]
pub struct Coin {
    pub denom: String,
    pub amount: u128,
}

/// The place of the first coin of a denomination among some coins, counted
/// from `from`.
pub open spec fn first_coin(coins: Seq<Coin>, denom: Seq<char>, from: int) -> Option<int>
    decreases coins.len() - from,
{
    if from < 0 || from >= coins.len() {
        None
    } else if coins[from].denom@ == denom {
        Some(from)
    } else {
        first_coin(coins, denom, from + 1)
    }
}

/// The amount of the first coin of a denomination, or zero where there is
/// no such coin.
pub open spec fn spec_amount_of(coins: Seq<Coin>, denom: Seq<char>) -> u128 {
    match first_coin(coins, denom, 0) {
        Some(i) => coins[i].amount,
        None => 0,
    }
}

/// Finds the first coin of a denomination.
pub fn find_coin(coins: &Vec<Coin>, denom: &String) -> (r: Option<usize>)
    ensures
        first_coin(coins@, denom@, 0) == (match r {
            Some(i) => Some(i as int),
            None => None,
        }),
        r matches Some(i) ==> i < coins.len(),
{
    let mut i: usize = 0;
    while i < coins.len()
        invariant
            0 <= i <= coins.len(),
            first_coin(coins@, denom@, 0) == first_coin(coins@, denom@, i as int),
        decreases coins.len() - i,
    {
        if coins[i].denom == *denom {
            return Some(i);
        }
        i = i + 1;
    }
    None
}

/// The amount of a denomination among some coins: that of the first coin of
/// the denomination, or zero.
pub fn amount_of(coins: &Vec<Coin>, denom: String) -> (r: u128)
    ensures
        r == spec_amount_of(coins@, denom@),
{
    match find_coin(coins, &denom) {
        Some(i) => coins[i].amount,
        None => 0,
    }
}

/// Whether the coins sent along are what an asset claims: for a native
/// coin, the first coin of its denomination holds exactly the amount, or
/// there is no such coin and the amount is zero. A token claims nothing.
pub open spec fn spec_sent_balance_ok(asset: Asset, funds: Seq<Coin>) -> bool {
    match asset.info {
        AssetInfo::NativeToken { denom } => asset.amount == spec_amount_of(funds, denom@),
        AssetInfo::Token { .. } => true,
    }
}

/// The tax on moving an amount of a taxed coin: what the amount holds
/// beyond its taxless part `amount / (1 + rate)`, rounded in favour of the
/// tax, but never more than the cap.
pub open spec fn spec_tax(amount: u128, rate: u128, cap: u128) -> Result<u128, PairError> {
    if rate + DECIMAL_FRACTIONAL > u128::MAX {
        Err(PairError::Arithmetic)
    } else {
        let tax = amount - (amount as nat * (DECIMAL_FRACTIONAL as nat)) / ((rate
            + DECIMAL_FRACTIONAL) as nat);
        if tax <= cap {
            Ok(tax as u128)
        } else {
            Ok(cap)
        }
    }
}

/// Whether moving an asset is taxed: a native coin other than `uluna` is.
pub open spec fn spec_is_taxed(info: AssetInfo) -> bool {
    match info {
        AssetInfo::NativeToken { denom } => denom@ != "uluna"@,
        AssetInfo::Token { .. } => false,
    }
}

/// What arrives of an asset that is sent as a coin: the amount less the tax.
pub open spec fn spec_after_tax(asset: Asset, rate: u128, cap: u128) -> Result<u128, PairError> {
    if !(asset.info is NativeToken) {
        Err(PairError::TaxOnToken)
    } else if !spec_is_taxed(asset.info) {
        Ok(asset.amount)
    } else {
        match spec_tax(asset.amount, rate, cap) {
            Ok(tax) => Ok((asset.amount - tax) as u128),
            Err(e) => Err(e),
        }
    }
}

/// The taxless part of an amount is no more than the amount.
proof fn lemma_taxless_part(amount: u128, rate: u128)
    ensures
        (amount as nat * (DECIMAL_FRACTIONAL as nat)) / ((rate + DECIMAL_FRACTIONAL) as nat)
            <= amount,
{
    let a = amount as int;
    let d = DECIMAL_FRACTIONAL as int;
    let r = rate as int;
    assert(0 <= a * d <= a * (r + d)) by (nonlinear_arith)
        requires
            0 <= a,
            0 <= r,
            0 < d,
    ;
    vstd::arithmetic::div_mod::lemma_div_is_ordered(a * d, a * (r + d), r + d);
    vstd::arithmetic::div_mod::lemma_div_multiples_vanish(a, r + d);
    assert(a * (r + d) == (r + d) * a) by (nonlinear_arith);
}

/// The tax on moving an amount of a taxed coin at a rate and under a cap;
/// an arithmetic error exactly when one plus the rate leaves 128 bits.
pub fn tax_amount(amount: u128, tax_rate: Decimal, tax_cap: u128) -> (r: Result<u128, PairError>)
    ensures
        r == spec_tax(amount, tax_rate.atomics, tax_cap),
{
    let divisor = match tax_rate.atomics.checked_add(DECIMAL_FRACTIONAL) {
        Some(d) => d,
        None => {
            return Err(PairError::Arithmetic);
        },
    };
    proof {
        lemma_taxless_part(amount, tax_rate.atomics);
    }
    let taxless = match multiply_ratio(amount, DECIMAL_FRACTIONAL, divisor) {
        Ok(a) => a,
        Err(e) => {
            return Err(e);
        },
    };
    let tax: u128 = amount - taxless;
    if tax <= tax_cap {
        Ok(tax)
    } else {
        Ok(tax_cap)
    }
}

impl Asset {
    /// Whether moving the asset is taxed.
    pub fn is_taxed(&self) -> (r: bool)
        ensures
            r == spec_is_taxed(self.info),
    {
        match &self.info {
            AssetInfo::NativeToken { denom } => {
                let luna = "uluna".to_owned();
                !(*denom == luna)
            },
            AssetInfo::Token { .. } => false,
        }
    }

    /// The tax on moving the asset, at the rate and under the cap that hold
    /// for it: nothing for an asset that is not taxed.
    pub fn compute_tax(&self, tax_rate: Decimal, tax_cap: u128) -> (r: Result<u128, PairError>)
        ensures
            r == (if spec_is_taxed(self.info) {
                spec_tax(self.amount, tax_rate.atomics, tax_cap)
            } else {
                Ok(0u128)
            }),
    {
        if self.is_taxed() {
            tax_amount(self.amount, tax_rate, tax_cap)
        } else {
            Ok(0)
        }
    }

    /// The coin that arrives when the asset is sent: the amount less the
    /// tax. A token is no coin.
    pub fn deduct_tax(&self, tax_rate: Decimal, tax_cap: u128) -> (r: Result<Coin, PairError>)
        ensures
            match r {
                Ok(coin) => coin.denom@ == asset_name(self.info) && spec_after_tax(
                    *self,
                    tax_rate.atomics,
                    tax_cap,
                ) == Ok::<u128, PairError>(coin.amount),
                Err(e) => spec_after_tax(*self, tax_rate.atomics, tax_cap) == Err::<
                    u128,
                    PairError,
                >(e),
            },
    {
        match &self.info {
            AssetInfo::NativeToken { denom } => {
                proof {
                    lemma_taxless_part(self.amount, tax_rate.atomics);
                }
                let tax = match self.compute_tax(tax_rate, tax_cap) {
                    Ok(t) => t,
                    Err(e) => {
                        return Err(e);
                    },
                };
                Ok(Coin { denom: denom.clone(), amount: self.amount - tax })
            },
            AssetInfo::Token { .. } => Err(PairError::TaxOnToken),
        }
    }

    /// Whether the asset is a native coin.
    pub fn is_native_token(&self) -> (r: bool)
        ensures
            r == (self.info is NativeToken),
    {
        self.info.is_native_token()
    }

    /// Holds the coins sent along against the amount that the asset names.
    pub fn assert_sent_native_token_balance(&self, funds: &Vec<Coin>) -> (r: Result<(), PairError>)
        ensures
            r == (if spec_sent_balance_ok(*self, funds@) {
                Ok::<(), PairError>(())
            } else {
                Err::<(), PairError>(PairError::NativeBalanceMismatch)
            }),
    {
        match &self.info {
            AssetInfo::NativeToken { denom } => {
                match find_coin(funds, denom) {
                    Some(i) => {
                        if self.amount == funds[i].amount {
                            Ok(())
                        } else {
                            Err(PairError::NativeBalanceMismatch)
                        }
                    },
                    None => {
                        if self.amount == 0 {
                            Ok(())
                        } else {
                            Err(PairError::NativeBalanceMismatch)
                        }
                    },
                }
            },
            AssetInfo::Token { .. } => Ok(()),
        }
    }
}

} // verus!
