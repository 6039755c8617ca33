//! A pair of weighted pools: what a swap, a deposit or a withdrawal comes
//! to, given the balances, the schedule and the present moment.

use vstd::prelude::*;
use crate::asset::{same_asset, spec_sent_balance_ok, Asset, AssetInfo, Coin, WeightedAsset, WeightedAssetInfo};
use crate::decimal::Decimal;
use crate::decimal256::{decimal256_text, Decimal256};
use crate::error::PairError;
use crate::guard::{
    assert_max_spread,
    assert_slippage_tolerance,
    spec_assert_max_spread,
    spec_assert_slippage_tolerance,
};
use crate::liquidity::{mint_amount, redeem_amounts, spec_mint_amount, spec_redeem_amounts};
use crate::swap::{compute_offer_amount, compute_swap, spec_compute_offer_amount, spec_compute_swap};
use crate::weight::{get_current_weight, spec_current_weight};

verus! {

/// What a pair is made with and keeps for its lifetime.
#[derive(Clone, Debug)]
pub struct PairInfo {
    /// The two assets with their weights.
    pub asset_infos: [WeightedAssetInfo; 2],
    /// When the weights start to move.
    pub start_time: u64,
    /// When the weights have arrived.
    pub end_time: u64,
    /// The commission rate as a decimal text.
    pub commission_rate: String,
    /// What the pair is for.
    pub description: Option<String>,
}

/// The outcome of a simulated swap.
#[derive(Clone, Debug)]
pub struct SimulationResponse {
    pub return_amount: u128,
    pub spread_amount: u128,
    pub commission_amount: u128,
    pub ask_weight: String,
    pub offer_weight: String,
}

/// The outcome of a simulated swap for a wanted return.
#[derive(Clone, Debug)]
pub struct ReverseSimulationResponse {
    pub offer_amount: u128,
    pub spread_amount: u128,
    pub commission_amount: u128,
    pub ask_weight: String,
    pub offer_weight: String,
}

/// What a swap comes to: which pool pays, and how much.
#[derive(Clone, Copy, Debug, PartialEq, Eq, Structural)]
pub struct SwapOutcome {
    /// The place of the ask pool among the two pools.
    pub ask_index: usize,
    pub offer_amount: u128,
    pub return_amount: u128,
    pub spread_amount: u128,
    pub commission_amount: u128,
}

/// What a deposit comes to: what enters each pool, and the shares it earns.
#[derive(Clone, Copy, Debug)]
pub struct ProvideOutcome {
    pub deposits: [u128; 2],
    pub share: u128,
}

/// The conditions on which a pair is made, in the order in which they are
/// tested.
pub open spec fn spec_instantiate(
    asset_infos: [WeightedAssetInfo; 2],
    start_time: u64,
    end_time: u64,
    now: u64,
) -> Result<(), PairError> {
    if start_time < now {
        Err(PairError::StartTimeInPast)
    } else if end_time <= start_time {
        Err(PairError::EndTimeNotAfterStart)
    } else if asset_infos[0].start_weight == 0 {
        Err(PairError::ZeroStartWeight)
    } else if asset_infos[0].end_weight == 0 {
        Err(PairError::ZeroEndWeight)
    } else if asset_infos[1].start_weight == 0 {
        Err(PairError::ZeroStartWeight)
    } else if asset_infos[1].end_weight == 0 {
        Err(PairError::ZeroEndWeight)
    } else {
        Ok(())
    }
}

/// Makes a pair, if its schedule lies ahead, has a length, and no weight is
/// zero.
pub fn instantiate(
    asset_infos: [WeightedAssetInfo; 2],
    start_time: u64,
    end_time: u64,
    commission_rate: String,
    description: Option<String>,
    now: u64,
) -> (r: Result<PairInfo, PairError>)
    ensures
        match r {
            Ok(pair) => spec_instantiate(asset_infos, start_time, end_time, now) is Ok
                && pair.asset_infos == asset_infos && pair.start_time == start_time && pair.end_time
                == end_time && pair.commission_rate == commission_rate && pair.description
                == description,
            Err(e) => spec_instantiate(asset_infos, start_time, end_time, now) == Err::<
                (),
                PairError,
            >(e),
        },
{
    if start_time < now {
        return Err(PairError::StartTimeInPast);
    }
    if end_time <= start_time {
        return Err(PairError::EndTimeNotAfterStart);
    }
    let mut i: usize = 0;
    while i < 2
        invariant
            0 <= i <= 2,
            forall|j: int| 0 <= j < i ==> asset_infos[j].start_weight != 0 && asset_infos[j].end_weight != 0,
            start_time >= now,
            end_time > start_time,
        decreases 2 - i,
    {
        if asset_infos[i].start_weight == 0 {
            return Err(PairError::ZeroStartWeight);
        }
        if asset_infos[i].end_weight == 0 {
            return Err(PairError::ZeroEndWeight);
        }
        i = i + 1;
    }
    Ok(PairInfo { asset_infos, start_time, end_time, commission_rate, description })
}

/// The place among the two pools of the pool that holds an asset.
pub open spec fn spec_pool_index(info: AssetInfo, pools: [WeightedAsset; 2]) -> Option<usize> {
    if same_asset(info, pools[0].info) {
        Some(0usize)
    } else if same_asset(info, pools[1].info) {
        Some(1usize)
    } else {
        None
    }
}

/// Finds the pool that holds an asset.
pub fn pool_index(info: &AssetInfo, pools: &[WeightedAsset; 2]) -> (r: Option<usize>)
    ensures
        r == spec_pool_index(*info, *pools),
{
    if info.equal(&pools[0].info) {
        Some(0)
    } else if info.equal(&pools[1].info) {
        Some(1)
    } else {
        None
    }
}

/// The weights of the offer pool and of the ask pool at a moment, as atomic
/// counts of decimals. The ask weight is taken first.
pub open spec fn spec_pair_weights(
    pools: [WeightedAsset; 2],
    offer_is_first: bool,
    start_time: u64,
    end_time: u64,
    block_time: u64,
) -> Result<(nat, nat), PairError> {
    let offer = if offer_is_first {
        pools[0]
    } else {
        pools[1]
    };
    let ask = if offer_is_first {
        pools[1]
    } else {
        pools[0]
    };
    match spec_current_weight(ask.start_weight, ask.end_weight, start_time, end_time, block_time) {
        Err(e) => Err(e),
        Ok(ask_weight) => match spec_current_weight(
            offer.start_weight,
            offer.end_weight,
            start_time,
            end_time,
            block_time,
        ) {
            Err(e) => Err(e),
            Ok(offer_weight) => Ok((offer_weight, ask_weight)),
        },
    }
}

/// The weights of the offer pool and of the ask pool at a moment.
pub fn pair_weights(
    pools: &[WeightedAsset; 2],
    offer_is_first: bool,
    start_time: u64,
    end_time: u64,
    block_time: u64,
) -> (r: Result<(Decimal256, Decimal256), PairError>)
    ensures
        (match r {
            Ok(w) => Ok((w.0@, w.1@)),
            Err(e) => Err(e),
        }) == spec_pair_weights(*pools, offer_is_first, start_time, end_time, block_time),
{
    let offer_index: usize = if offer_is_first {
        0
    } else {
        1
    };
    let ask_index: usize = 1 - offer_index;
    let ask_weight = match get_current_weight(
        pools[ask_index].start_weight,
        pools[ask_index].end_weight,
        start_time,
        end_time,
        block_time,
    ) {
        Ok(w) => w,
        Err(e) => {
            return Err(e);
        },
    };
    let offer_weight = match get_current_weight(
        pools[offer_index].start_weight,
        pools[offer_index].end_weight,
        start_time,
        end_time,
        block_time,
    ) {
        Ok(w) => w,
        Err(e) => {
            return Err(e);
        },
    };
    Ok((offer_weight, ask_weight))
}

/// A simulated swap of `offer_amount` of an asset: the three amounts of the
/// quote, then the offer weight and the ask weight.
pub open spec fn spec_simulation(
    pools: [WeightedAsset; 2],
    start_time: u64,
    end_time: u64,
    commission_rate: Seq<char>,
    offer_info: AssetInfo,
    offer_amount: u128,
    block_time: u64,
) -> Result<((u128, u128, u128), nat, nat), PairError> {
    match spec_pool_index(offer_info, pools) {
        None => Err(PairError::InvalidAsset),
        Some(i) => match spec_pair_weights(pools, i == 0, start_time, end_time, block_time) {
            Err(e) => Err(e),
            Ok((offer_weight, ask_weight)) => match spec_compute_swap(
                pools[i as int].amount,
                offer_weight,
                pools[1 - i].amount,
                ask_weight,
                offer_amount,
                commission_rate,
            ) {
                Err(e) => Err(e),
                Ok(quote) => Ok((quote, offer_weight, ask_weight)),
            },
        },
    }
}

/// What a swap of the offer asset would return at `block_time`, with the
/// weights that were in force.
pub fn query_simulation(
    pools: &[WeightedAsset; 2],
    start_time: u64,
    end_time: u64,
    commission_rate: &String,
    offer_asset: &Asset,
    block_time: u64,
) -> (r: Result<SimulationResponse, PairError>)
    ensures
        match r {
            Ok(res) => {
                let expected = spec_simulation(
                    *pools,
                    start_time,
                    end_time,
                    commission_rate@,
                    offer_asset.info,
                    offer_asset.amount,
                    block_time,
                );
                &&& expected is Ok
                &&& expected->Ok_0.0 == (
                    res.return_amount,
                    res.spread_amount,
                    res.commission_amount,
                )
                &&& res.offer_weight@ == decimal256_text(expected->Ok_0.1)
                &&& res.ask_weight@ == decimal256_text(expected->Ok_0.2)
            },
            Err(e) => spec_simulation(
                *pools,
                start_time,
                end_time,
                commission_rate@,
                offer_asset.info,
                offer_asset.amount,
                block_time,
            ) == Err::<((u128, u128, u128), nat, nat), PairError>(e),
        },
{
    let offer_index = match pool_index(&offer_asset.info, pools) {
        Some(i) => i,
        None => {
            return Err(PairError::InvalidAsset);
        },
    };
    let ask_index: usize = 1 - offer_index;
    let (offer_weight, ask_weight) = match pair_weights(
        pools,
        offer_index == 0,
        start_time,
        end_time,
        block_time,
    ) {
        Ok(w) => w,
        Err(e) => {
            return Err(e);
        },
    };
    let (return_amount, spread_amount, commission_amount) = match compute_swap(
        pools[offer_index].amount,
        offer_weight,
        pools[ask_index].amount,
        ask_weight,
        offer_asset.amount,
        commission_rate.clone(),
    ) {
        Ok(t) => t,
        Err(e) => {
            return Err(e);
        },
    };
    Ok(
        SimulationResponse {
            return_amount,
            spread_amount,
            commission_amount,
            ask_weight: ask_weight.to_text(),
            offer_weight: offer_weight.to_text(),
        },
    )
}

/// A simulated swap for `ask_amount` of an asset: the three amounts of the
/// quote, then the offer weight and the ask weight.
pub open spec fn spec_reverse_simulation(
    pools: [WeightedAsset; 2],
    start_time: u64,
    end_time: u64,
    commission_rate: Seq<char>,
    ask_info: AssetInfo,
    ask_amount: u128,
    block_time: u64,
) -> Result<((u128, u128, u128), nat, nat), PairError> {
    match spec_pool_index(ask_info, pools) {
        None => Err(PairError::InvalidAsset),
        Some(a) => match spec_pair_weights(pools, a != 0, start_time, end_time, block_time) {
            Err(e) => Err(e),
            Ok((offer_weight, ask_weight)) => match spec_compute_offer_amount(
                pools[1 - a].amount,
                offer_weight,
                pools[a as int].amount,
                ask_weight,
                ask_amount,
                commission_rate,
            ) {
                Err(e) => Err(e),
                Ok(quote) => Ok((quote, offer_weight, ask_weight)),
            },
        },
    }
}

/// What must be offered at `block_time` to receive the ask asset, with the
/// weights that were in force.
pub fn query_reverse_simulation(
    pools: &[WeightedAsset; 2],
    start_time: u64,
    end_time: u64,
    commission_rate: &String,
    ask_asset: &Asset,
    block_time: u64,
) -> (r: Result<ReverseSimulationResponse, PairError>)
    ensures
        match r {
            Ok(res) => {
                let expected = spec_reverse_simulation(
                    *pools,
                    start_time,
                    end_time,
                    commission_rate@,
                    ask_asset.info,
                    ask_asset.amount,
                    block_time,
                );
                &&& expected is Ok
                &&& expected->Ok_0.0 == (
                    res.offer_amount,
                    res.spread_amount,
                    res.commission_amount,
                )
                &&& res.offer_weight@ == decimal256_text(expected->Ok_0.1)
                &&& res.ask_weight@ == decimal256_text(expected->Ok_0.2)
            },
            Err(e) => spec_reverse_simulation(
                *pools,
                start_time,
                end_time,
                commission_rate@,
                ask_asset.info,
                ask_asset.amount,
                block_time,
            ) == Err::<((u128, u128, u128), nat, nat), PairError>(e),
        },
{
    let ask_index = match pool_index(&ask_asset.info, pools) {
        Some(i) => i,
        None => {
            return Err(PairError::InvalidAsset);
        },
    };
    let offer_index: usize = 1 - ask_index;
    let (offer_weight, ask_weight) = match pair_weights(
        pools,
        offer_index == 0,
        start_time,
        end_time,
        block_time,
    ) {
        Ok(w) => w,
        Err(e) => {
            return Err(e);
        },
    };
    let (offer_amount, spread_amount, commission_amount) = match compute_offer_amount(
        pools[offer_index].amount,
        offer_weight,
        pools[ask_index].amount,
        ask_weight,
        ask_asset.amount,
        commission_rate.clone(),
    ) {
        Ok(t) => t,
        Err(e) => {
            return Err(e);
        },
    };
    Ok(
        ReverseSimulationResponse {
            offer_amount,
            spread_amount,
            commission_amount,
            ask_weight: ask_weight.to_text(),
            offer_weight: offer_weight.to_text(),
        },
    )
}

/// What a swap comes to.
///
/// The coins sent along must be what the offer claims, and the offer must
/// be of one of the two assets. The offer pool already holds the offer, so
/// the offer is taken off its balance before the quote. The quote is then
/// held against the spread that the caller allows, with commission counted
/// as part of the return.
pub open spec fn spec_try_swap(
    pools: [WeightedAsset; 2],
    start_time: u64,
    end_time: u64,
    commission_rate: Seq<char>,
    funds: Seq<Coin>,
    offer_asset: Asset,
    belief_price: Option<Decimal>,
    max_spread: Option<Decimal>,
    block_time: u64,
) -> Result<SwapOutcome, PairError> {
    if !spec_sent_balance_ok(offer_asset, funds) {
        Err(PairError::NativeBalanceMismatch)
    } else {
        match spec_pool_index(offer_asset.info, pools) {
            None => Err(PairError::InvalidAsset),
            Some(i) => if pools[i as int].amount < offer_asset.amount {
                Err(PairError::Arithmetic)
            } else {
                match spec_pair_weights(pools, i == 0, start_time, end_time, block_time) {
                    Err(e) => Err(e),
                    Ok((offer_weight, ask_weight)) => match spec_compute_swap(
                        (pools[i as int].amount - offer_asset.amount) as u128,
                        offer_weight,
                        pools[1 - i].amount,
                        ask_weight,
                        offer_asset.amount,
                        commission_rate,
                    ) {
                        Err(e) => Err(e),
                        Ok(quote) => match spec_assert_max_spread(
                            belief_price,
                            max_spread,
                            offer_asset.amount,
                            (quote.0 + quote.2) as u128,
                            quote.1,
                        ) {
                            Err(e) => Err(e),
                            Ok(_) => Ok(
                                SwapOutcome {
                                    ask_index: (1 - i) as usize,
                                    offer_amount: offer_asset.amount,
                                    return_amount: quote.0,
                                    spread_amount: quote.1,
                                    commission_amount: quote.2,
                                },
                            ),
                        },
                    },
                }
            },
        }
    }
}

/// Decides a swap: which pool pays, how much the trader receives, and what
/// spread and commission that carries.
pub fn try_swap(
    pools: &[WeightedAsset; 2],
    start_time: u64,
    end_time: u64,
    commission_rate: &String,
    funds: &Vec<Coin>,
    offer_asset: &Asset,
    belief_price: Option<Decimal>,
    max_spread: Option<Decimal>,
    block_time: u64,
) -> (r: Result<SwapOutcome, PairError>)
    ensures
        r == spec_try_swap(
            *pools,
            start_time,
            end_time,
            commission_rate@,
            funds@,
            *offer_asset,
            belief_price,
            max_spread,
            block_time,
        ),
{
    match offer_asset.assert_sent_native_token_balance(funds) {
        Ok(_) => {},
        Err(e) => {
            return Err(e);
        },
    }
    let offer_index = match pool_index(&offer_asset.info, pools) {
        Some(i) => i,
        None => {
            return Err(PairError::InvalidAsset);
        },
    };
    let ask_index: usize = 1 - offer_index;
    let offer_pool_amount = match pools[offer_index].amount.checked_sub(offer_asset.amount) {
        Some(a) => a,
        None => {
            return Err(PairError::Arithmetic);
        },
    };
    let (offer_weight, ask_weight) = match pair_weights(
        pools,
        offer_index == 0,
        start_time,
        end_time,
        block_time,
    ) {
        Ok(w) => w,
        Err(e) => {
            return Err(e);
        },
    };
    let offer_amount = offer_asset.amount;
    let (return_amount, spread_amount, commission_amount) = match compute_swap(
        offer_pool_amount,
        offer_weight,
        pools[ask_index].amount,
        ask_weight,
        offer_amount,
        commission_rate.clone(),
    ) {
        Ok(t) => t,
        Err(e) => {
            return Err(e);
        },
    };
    match assert_max_spread(
        belief_price,
        max_spread,
        offer_amount,
        return_amount + commission_amount,
        spread_amount,
    ) {
        Ok(_) => {},
        Err(e) => {
            return Err(e);
        },
    }
    Ok(SwapOutcome { ask_index, offer_amount, return_amount, spread_amount, commission_amount })
}

/// The amount that a deposit of two assets holds of a given asset: that of
/// the first of the two that is this asset.
pub open spec fn spec_deposit_of(assets: [Asset; 2], info: AssetInfo) -> Option<u128> {
    if same_asset(assets[0].info, info) {
        Some(assets[0].amount)
    } else if same_asset(assets[1].info, info) {
        Some(assets[1].amount)
    } else {
        None
    }
}

/// Finds what a deposit holds of an asset.
pub fn deposit_of(assets: &[Asset; 2], info: &AssetInfo) -> (r: Option<u128>)
    ensures
        r == spec_deposit_of(*assets, *info),
{
    if assets[0].info.equal(info) {
        Some(assets[0].amount)
    } else if assets[1].info.equal(info) {
        Some(assets[1].amount)
    } else {
        None
    }
}

/// The balance of a pool before a deposit. A native coin has already
/// arrived when the deposit is decided, a token has not.
pub open spec fn spec_pool_before(pool: WeightedAsset, deposit: u128) -> Result<u128, PairError> {
    if pool.info is NativeToken {
        if pool.amount < deposit {
            Err(PairError::Arithmetic)
        } else {
            Ok((pool.amount - deposit) as u128)
        }
    } else {
        Ok(pool.amount)
    }
}

/// What a deposit comes to: what enters each pool, and the shares it earns.
pub open spec fn spec_try_provide_liquidity(
    assets: [Asset; 2],
    funds: Seq<Coin>,
    pools: [WeightedAsset; 2],
    total_share: u128,
    slippage_tolerance: Option<Decimal>,
) -> Result<([u128; 2], u128), PairError> {
    if !spec_sent_balance_ok(assets[0], funds) || !spec_sent_balance_ok(assets[1], funds) {
        Err(PairError::NativeBalanceMismatch)
    } else {
        match (spec_deposit_of(assets, pools[0].info), spec_deposit_of(assets, pools[1].info)) {
            (Some(first), Some(second)) => if first == 0 || second == 0 {
                Err(PairError::ZeroAmount)
            } else {
                match (spec_pool_before(pools[0], first), spec_pool_before(pools[1], second)) {
                    (Ok(pool_first), Ok(pool_second)) => match spec_assert_slippage_tolerance(
                        slippage_tolerance,
                        [first, second],
                        [pool_first, pool_second],
                    ) {
                        Err(e) => Err(e),
                        Ok(_) => match spec_mint_amount(
                            total_share,
                            [first, second],
                            [pool_first, pool_second],
                        ) {
                            Err(e) => Err(e),
                            Ok(share) => Ok(([first, second], share)),
                        },
                    },
                    _ => Err(PairError::Arithmetic),
                }
            },
            _ => Err(PairError::InvalidAsset),
        }
    }
}

/// The balance of a pool before a deposit.
fn pool_before(pool: &WeightedAsset, deposit: u128) -> (r: Result<u128, PairError>)
    ensures
        r == spec_pool_before(*pool, deposit),
{
    if pool.info.is_native_token() {
        match pool.amount.checked_sub(deposit) {
            Some(a) => Ok(a),
            None => Err(PairError::Arithmetic),
        }
    } else {
        Ok(pool.amount)
    }
}

/// Decides a deposit: what enters each pool, and the shares to mint for it.
pub fn try_provide_liquidity(
    assets: &[Asset; 2],
    funds: &Vec<Coin>,
    pools: &[WeightedAsset; 2],
    total_share: u128,
    slippage_tolerance: Option<Decimal>,
) -> (r: Result<ProvideOutcome, PairError>)
    ensures
        (match r {
            Ok(outcome) => Ok((outcome.deposits, outcome.share)),
            Err(e) => Err(e),
        }) == spec_try_provide_liquidity(*assets, funds@, *pools, total_share, slippage_tolerance),
{
    match assets[0].assert_sent_native_token_balance(funds) {
        Ok(_) => {},
        Err(e) => {
            return Err(e);
        },
    }
    match assets[1].assert_sent_native_token_balance(funds) {
        Ok(_) => {},
        Err(e) => {
            return Err(e);
        },
    }
    let first = match deposit_of(assets, &pools[0].info) {
        Some(a) => a,
        None => {
            return Err(PairError::InvalidAsset);
        },
    };
    let second = match deposit_of(assets, &pools[1].info) {
        Some(a) => a,
        None => {
            return Err(PairError::InvalidAsset);
        },
    };
    if first == 0 || second == 0 {
        return Err(PairError::ZeroAmount);
    }
    let pool_first = match pool_before(&pools[0], first) {
        Ok(a) => a,
        Err(e) => {
            return Err(e);
        },
    };
    let pool_second = match pool_before(&pools[1], second) {
        Ok(a) => a,
        Err(e) => {
            return Err(e);
        },
    };
    let deposits: [u128; 2] = [first, second];
    let balances: [u128; 2] = [pool_first, pool_second];
    match assert_slippage_tolerance(&slippage_tolerance, &deposits, &balances) {
        Ok(_) => {},
        Err(e) => {
            return Err(e);
        },
    }
    match mint_amount(total_share, deposits, balances) {
        Ok(share) => Ok(ProvideOutcome { deposits, share }),
        Err(e) => Err(e),
    }
}

/// Decides a withdrawal: what burning `amount` of the `total_share`
/// outstanding shares returns of each pool.
pub fn try_withdraw_liquidity(amount: u128, total_share: u128, pools: &[WeightedAsset; 2]) -> (r:
    Result<[u128; 2], PairError>)
    ensures
        r == spec_redeem_amounts(amount, total_share, [pools[0].amount, pools[1].amount]),
{
    redeem_amounts(amount, total_share, [pools[0].amount, pools[1].amount])
}

} // verus!
