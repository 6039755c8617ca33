//! Shares of a pool: how many a deposit earns and what burning them returns.

use vstd::prelude::*;
use crate::decimal::{multiply_ratio, spec_multiply_ratio};
use crate::error::PairError;
use crate::uint256::{full_mul, integer_sqrt, pow2_128};

verus! {

/// Whether `root` is the square root of `n`, rounded down.
pub open spec fn is_floor_sqrt(root: nat, n: nat) -> bool {
    root * root <= n < (root + 1) * (root + 1)
}

/// `deposit * total_share / pool`, rounded down, or the largest amount
/// where that is larger still.
pub open spec fn spec_proportional_share(deposit: u128, total_share: u128, pool: u128) -> u128
    recommends
        pool != 0,
{
    let exact = (deposit as nat * total_share as nat) / (pool as nat);
    if exact > u128::MAX {
        u128::MAX
    } else {
        exact as u128
    }
}

/// The shares that a deposit into a pool with outstanding shares earns: the
/// smaller of the two proportional shares.
pub open spec fn spec_mint_proportional(total_share: u128, deposits: [u128; 2], pools: [u128; 2]) -> Result<
    u128,
    PairError,
> {
    if pools[0] == 0 || pools[1] == 0 {
        Err(PairError::Arithmetic)
    } else {
        let first = spec_proportional_share(deposits[0], total_share, pools[0]);
        let second = spec_proportional_share(deposits[1], total_share, pools[1]);
        if first <= second {
            Ok(first)
        } else {
            Ok(second)
        }
    }
}

/// A square root that is squared below two to the power 256 is below two to
/// the power 128.
proof fn lemma_root_fits(root: nat, a: u128, b: u128)
    requires
        root * root <= a as nat * b as nat,
    ensures
        root <= u128::MAX,
        root <= if a >= b {
            a
        } else {
            b
        },
{
    let m: int = if a >= b {
        a as int
    } else {
        b as int
    };
    let r = root as int;
    assert(a as int * b as int <= m * m) by (nonlinear_arith)
        requires
            0 <= a as int <= m,
            0 <= b as int <= m,
    ;
    if r > m {
        assert(r * r > m * m) by (nonlinear_arith)
            requires
                r > m,
                m >= 0,
        ;
    }
}

/// `deposit * total_share / pool` for a pool that is not empty, rounded
/// down and cut to the largest amount.
fn proportional_share(deposit: u128, total_share: u128, pool: u128) -> (r: u128)
    requires
        pool != 0,
    ensures
        r == spec_proportional_share(deposit, total_share, pool),
{
    match multiply_ratio(deposit, total_share, pool) {
        Ok(share) => share,
        Err(_) => u128::MAX,
    }
}

/// The square root of `n`, rounded down.
pub open spec fn floor_sqrt(n: nat) -> nat {
    choose|root: nat| is_floor_sqrt(root, n)
}

/// There is only one square root rounded down.
pub proof fn lemma_floor_sqrt_unique(root: nat, n: nat)
    requires
        is_floor_sqrt(root, n),
    ensures
        floor_sqrt(n) == root,
{
    let other = floor_sqrt(n);
    assert(is_floor_sqrt(other, n));
    let a = root as int;
    let b = other as int;
    if a < b {
        assert((a + 1) * (a + 1) <= b * b) by (nonlinear_arith)
            requires
                0 <= a,
                a + 1 <= b,
        ;
    }
    if b < a {
        assert((b + 1) * (b + 1) <= a * a) by (nonlinear_arith)
            requires
                0 <= b,
                b + 1 <= a,
        ;
    }
}

/// The shares that a deposit earns.
///
/// The first deposit earns the square root of the product of its two
/// amounts, rounded down. A later deposit earns the smaller of its two
/// proportional shares; with an empty pool there is no proportion.
pub open spec fn spec_mint_amount(total_share: u128, deposits: [u128; 2], pools: [u128; 2]) -> Result<
    u128,
    PairError,
> {
    if total_share == 0 {
        Ok(floor_sqrt(deposits[0] as nat * deposits[1] as nat) as u128)
    } else {
        spec_mint_proportional(total_share, deposits, pools)
    }
}

/// The shares to mint for a deposit.
///
/// The first deposit earns the square root of the product of its two
/// amounts, rounded down. A later deposit earns the smaller of its two
/// proportional shares, each cut to the largest amount if it is larger
/// still; with an empty pool there is no proportion, which is an arithmetic
/// error.
pub fn mint_amount(total_share: u128, deposits: [u128; 2], pools: [u128; 2]) -> (r: Result<
    u128,
    PairError,
>)
    ensures
        r == spec_mint_amount(total_share, deposits, pools),
        total_share == 0 ==> r is Ok && is_floor_sqrt(
            r->Ok_0 as nat,
            deposits[0] as nat * deposits[1] as nat,
        ),
{
    if total_share == 0 {
        let product = full_mul(deposits[0], deposits[1]);
        let root = integer_sqrt(&product);
        proof {
            lemma_root_fits(root@, deposits[0], deposits[1]);
            lemma_floor_sqrt_unique(root@, deposits[0] as nat * deposits[1] as nat);
            vstd::arithmetic::div_mod::lemma_small_mod(root@, pow2_128());
        }
        Ok(root.low())
    } else {
        if pools[0] == 0 || pools[1] == 0 {
            return Err(PairError::Arithmetic);
        }
        let first = proportional_share(deposits[0], total_share, pools[0]);
        let second = proportional_share(deposits[1], total_share, pools[1]);
        if first <= second {
            Ok(first)
        } else {
            Ok(second)
        }
    }
}

/// What burning `burn_share` of `total_share` shares returns of each pool:
/// `pool * burn_share / total_share`, rounded down.
pub open spec fn spec_redeem_amounts(burn_share: u128, total_share: u128, pools: [u128; 2]) -> Result<
    [u128; 2],
    PairError,
> {
    match (
        spec_multiply_ratio(pools[0], burn_share, total_share),
        spec_multiply_ratio(pools[1], burn_share, total_share),
    ) {
        (Ok(first), Ok(second)) => Ok([first, second]),
        _ => Err(PairError::Arithmetic),
    }
}

/// The two refunds for burning shares; an arithmetic error exactly when no
/// shares are outstanding or a refund leaves 128 bits.
pub fn redeem_amounts(burn_share: u128, total_share: u128, pools: [u128; 2]) -> (r: Result<
    [u128; 2],
    PairError,
>)
    ensures
        r == spec_redeem_amounts(burn_share, total_share, pools),
        total_share != 0 && burn_share == total_share ==> r == Ok::<[u128; 2], PairError>(pools),
{
    proof {
        if total_share != 0 {
            lemma_redeem_all(total_share, pools);
        }
    }
    let first = match multiply_ratio(pools[0], burn_share, total_share) {
        Ok(a) => a,
        Err(e) => {
            return Err(e);
        },
    };
    let second = match multiply_ratio(pools[1], burn_share, total_share) {
        Ok(a) => a,
        Err(e) => {
            return Err(e);
        },
    };
    Ok([first, second])
}

/// Burning every outstanding share returns exactly the two pools.
pub proof fn lemma_redeem_all(total_share: u128, pools: [u128; 2])
    requires
        total_share != 0,
    ensures
        spec_redeem_amounts(total_share, total_share, pools) == Ok::<[u128; 2], PairError>(pools),
{
    vstd::arithmetic::div_mod::lemma_div_multiples_vanish(pools[0] as int, total_share as int);
    vstd::arithmetic::div_mod::lemma_div_multiples_vanish(pools[1] as int, total_share as int);
    assert(pools[0] as int * total_share as int == total_share as int * pools[0] as int)
        by (nonlinear_arith);
    assert(pools[1] as int * total_share as int == total_share as int * pools[1] as int)
        by (nonlinear_arith);
    let refunds: [u128; 2] = [pools[0], pools[1]];
    assert(refunds =~= pools);
}

/// A refund is never more than the pool it comes from, as long as no more
/// shares are burnt than are outstanding.
pub proof fn lemma_redeem_bounded(burn_share: u128, total_share: u128, pools: [u128; 2])
    requires
        total_share != 0,
        burn_share <= total_share,
    ensures
        spec_redeem_amounts(burn_share, total_share, pools) is Ok,
        spec_redeem_amounts(burn_share, total_share, pools)->Ok_0[0] <= pools[0],
        spec_redeem_amounts(burn_share, total_share, pools)->Ok_0[1] <= pools[1],
{
    lemma_part_bounded(pools[0], burn_share, total_share);
    lemma_part_bounded(pools[1], burn_share, total_share);
}

/// A part of a pool in the proportion of a part to its whole is at most the
/// pool.
proof fn lemma_part_bounded(pool: u128, part: u128, whole: u128)
    requires
        whole != 0,
        part <= whole,
    ensures
        (pool as nat * part as nat) / (whole as nat) <= pool,
{
    let p = pool as int;
    let b = part as int;
    let t = whole as int;
    assert(0 <= p * b <= p * t) by (nonlinear_arith)
        requires
            0 <= p,
            0 <= b <= t,
    ;
    vstd::arithmetic::div_mod::lemma_div_is_ordered(p * b, p * t, t);
    vstd::arithmetic::div_mod::lemma_div_multiples_vanish(p, t);
    assert(p * t == t * p) by (nonlinear_arith);
}

} // verus!
