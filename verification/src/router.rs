//! Routes: chains of swaps in which each swap offers what the one before it
//! asked for.

use vstd::prelude::*;
use vstd::hash_map::StringHashMap;
use crate::asset::{asset_name, same_asset, AssetInfo};
use crate::error::PairError;

verus! {

/// One swap of a route: on the native market, or in a pair.
#[derive(Clone, Debug)]
pub enum SwapOperation {
    NativeSwap { offer_denom: String, ask_denom: String },
    AstroSwap { offer_asset_info: AssetInfo, ask_asset_info: AssetInfo },
}

/// The name of the asset that a swap offers.
pub open spec fn offer_name(operation: SwapOperation) -> Seq<char> {
    match operation {
        SwapOperation::NativeSwap { offer_denom, .. } => offer_denom@,
        SwapOperation::AstroSwap { offer_asset_info, .. } => asset_name(offer_asset_info),
    }
}

/// The name of the asset that a swap asks for.
pub open spec fn ask_name(operation: SwapOperation) -> Seq<char> {
    match operation {
        SwapOperation::NativeSwap { ask_denom, .. } => ask_denom@,
        SwapOperation::AstroSwap { ask_asset_info, .. } => asset_name(ask_asset_info),
    }
}

impl SwapOperation {
    /// The asset that the swap offers. The native market trades native
    /// coins.
    pub fn get_offer_asset_info(&self) -> (r: AssetInfo)
        ensures
            asset_name(r) == offer_name(*self),
            match *self {
                SwapOperation::NativeSwap { .. } => r is NativeToken,
                SwapOperation::AstroSwap { offer_asset_info, .. } => same_asset(
                    r,
                    offer_asset_info,
                ),
            },
    {
        match self {
            SwapOperation::NativeSwap { offer_denom, .. } => AssetInfo::NativeToken {
                denom: offer_denom.clone(),
            },
            SwapOperation::AstroSwap { offer_asset_info, .. } => offer_asset_info.duplicate(),
        }
    }

    /// The asset that the swap asks for.
    pub fn get_ask_asset_info(&self) -> (r: AssetInfo)
        ensures
            asset_name(r) == ask_name(*self),
            match *self {
                SwapOperation::NativeSwap { .. } => r is NativeToken,
                SwapOperation::AstroSwap { ask_asset_info, .. } => same_asset(r, ask_asset_info),
            },
    {
        match self {
            SwapOperation::NativeSwap { ask_denom, .. } => AssetInfo::NativeToken {
                denom: ask_denom.clone(),
            },
            SwapOperation::AstroSwap { ask_asset_info, .. } => ask_asset_info.duplicate(),
        }
    }
}

/// Whether each swap but the first offers the asset, by its name, that the
/// swap before it asked for. An ask without a name binds nothing.
pub open spec fn operations_in_order(operations: Seq<SwapOperation>) -> bool {
    forall|i: int|
        1 <= i < operations.len() ==> ask_name(#[trigger] operations[i - 1]).len() == 0
            || ask_name(operations[i - 1]) == offer_name(operations[i])
}

/// Checks that the swaps of a route follow one another.
pub fn assert_operations_order(operations: &Vec<SwapOperation>) -> (r: Result<(), PairError>)
    ensures
        r == (if operations_in_order(operations@) {
            Ok::<(), PairError>(())
        } else {
            Err::<(), PairError>(PairError::InvalidOperationsOrder)
        }),
{
    let mut i: usize = 1;
    while i < operations.len()
        invariant
            1 <= i,
            forall|j: int|
                1 <= j < i && j < operations.len() ==> ask_name(#[trigger] operations[j - 1]).len()
                    == 0 || ask_name(operations[j - 1]) == offer_name(operations[j]),
        decreases operations.len() - i,
    {
        let prev_ask = operations[i - 1].get_ask_asset_info();
        let offer_asset = operations[i].get_offer_asset_info();
        let prev_name = prev_ask.name();
        if !prev_name.as_str().is_empty() && !(*prev_name == *offer_asset.name()) {
            assert(!(ask_name(operations@[i as int - 1]).len() == 0 || ask_name(
                operations@[i as int - 1],
            ) == offer_name(operations@[i as int])));
            return Err(PairError::InvalidOperationsOrder);
        }
        i = i + 1;
    }
    Ok(())
}

/// The names of the assets that a route has asked for and not offered
/// since: each swap takes the name of its offer away and adds the name of
/// its ask.
pub open spec fn open_asks(operations: Seq<SwapOperation>) -> Set<Seq<char>>
    decreases operations.len(),
{
    if operations.len() == 0 {
        Set::empty()
    } else {
        open_asks(operations.drop_last()).remove(offer_name(operations.last())).insert(
            ask_name(operations.last()),
        )
    }
}

/// Checks that a route ends in exactly one asset.
pub fn assert_operations(operations: &Vec<SwapOperation>) -> (r: Result<(), PairError>)
    ensures
        r == (if open_asks(operations@).len() == 1 {
            Ok::<(), PairError>(())
        } else {
            Err::<(), PairError>(PairError::MultipleOutputToken)
        }),
{
    let mut ask_asset_map: StringHashMap<bool> = StringHashMap::new();
    let mut i: usize = 0;
    while i < operations.len()
        invariant
            0 <= i <= operations.len(),
            ask_asset_map@.dom() == open_asks(operations@.take(i as int)),
            ask_asset_map@.dom().finite(),
        decreases operations.len() - i,
    {
        let offer_asset = operations[i].get_offer_asset_info();
        let ask_asset = operations[i].get_ask_asset_info();
        proof {
            let next = operations@.take(i as int + 1);
            assert(next.drop_last() == operations@.take(i as int));
            assert(next.last() == operations@[i as int]);
        }
        ask_asset_map.remove(offer_asset.name().as_str());
        ask_asset_map.insert(ask_asset.name().clone(), true);
        i = i + 1;
    }
    assert(operations@.take(operations.len() as int) == operations@);
    if ask_asset_map.len() != 1 {
        return Err(PairError::MultipleOutputToken);
    }
    Ok(())
}

/// Checks that a route brought its receiver at least the least that the
/// caller accepts; a balance that went down is an arithmetic error.
pub fn assert_minium_receive(receiver_balance: u128, prev_balance: u128, minimum_receive: u128) -> (r:
    Result<(), PairError>)
    ensures
        r == (if receiver_balance < prev_balance {
            Err::<(), PairError>(PairError::Arithmetic)
        } else if receiver_balance - prev_balance < minimum_receive {
            Err::<(), PairError>(PairError::MinimumReceive)
        } else {
            Ok::<(), PairError>(())
        }),
{
    let swap_amount = match receiver_balance.checked_sub(prev_balance) {
        Some(a) => a,
        None => {
            return Err(PairError::Arithmetic);
        },
    };
    if swap_amount < minimum_receive {
        return Err(PairError::MinimumReceive);
    }
    Ok(())
}

} // verus!
