//! The base fee of a block, computed from the header of its parent.
//!
//! The fee moves toward demand: a parent that used half of its gas limit keeps
//! the fee, a fuller parent raises it and an emptier one lowers it, each by at
//! most an eighth.

use vstd::prelude::*;
use vstd::pervasive::unreached;
use vstd::arithmetic::div_mod::{lemma_div_is_ordered, lemma_div_multiples_vanish, lemma_div_pos_is_pos};
use crate::block::{Header, HeaderView};
use crate::uint::{checked_add, checked_div, checked_mul, checked_sub, u256_max, U256};

verus! {

/// The gas that a block is meant to use: half of its limit.
pub open spec fn gas_target(gas_limit: nat) -> nat {
    gas_limit / 2
}

/// The change of the fee before its least step is applied: the fee, times the
/// distance of the gas used from the target, divided by the target and by 8,
/// each division rounding down.
pub open spec fn base_fee_delta(gas_limit: nat, gas_used: nat, base_fee: nat) -> nat {
    let target = gas_target(gas_limit);
    let distance = if gas_used < target {
        target - gas_used
    } else {
        gas_used - target
    };
    (base_fee * distance / target as int / 8) as nat
}

/// The base fee of the block that follows a parent with the given gas limit,
/// gas used and base fee.
pub open spec fn next_base_fee(gas_limit: nat, gas_used: nat, base_fee: nat) -> nat {
    let target = gas_target(gas_limit);
    let delta = base_fee_delta(gas_limit, gas_used, base_fee);
    if gas_used == target {
        base_fee
    } else if gas_used < target {
        (base_fee - delta) as nat
    } else if delta > 1 {
        base_fee + delta
    } else {
        base_fee + 1
    }
}

/// Whether the fee that follows can be computed in 256 bits: the parent used
/// its target exactly, or the target is not zero, the product of the fee and
/// the distance from the target fits, and so does a raised fee.
pub open spec fn base_fee_fits(gas_limit: nat, gas_used: nat, base_fee: nat) -> bool {
    let target = gas_target(gas_limit);
    if gas_used == target {
        true
    } else if gas_used < target {
        base_fee * (target - gas_used) <= u256_max()
    } else {
        &&& target > 0
        &&& base_fee * (gas_used - target) <= u256_max()
        &&& next_base_fee(gas_limit, gas_used, base_fee) <= u256_max()
    }
}

/// Whether the base fee of a child of `parent` is defined: the parent carries
/// a base fee, and the fee that follows fits.
pub open spec fn has_next_base_fee(parent: HeaderView) -> bool {
    &&& parent.base_fee_per_gas is Some
    &&& base_fee_fits(parent.gas_limit, parent.gas_used, parent.base_fee_per_gas->Some_0)
}

/// The base fee of a child of `parent`, where [`has_next_base_fee`] holds.
pub open spec fn spec_next_base_fee(parent: HeaderView) -> nat {
    next_base_fee(parent.gas_limit, parent.gas_used, parent.base_fee_per_gas->Some_0)
}

/// A fee is lowered by no more than itself, and by no more than an eighth.
pub proof fn lemma_delta_below_target(gas_limit: nat, gas_used: nat, base_fee: nat)
    requires
        gas_used < gas_target(gas_limit),
    ensures
        base_fee_delta(gas_limit, gas_used, base_fee) <= base_fee / 8,
        base_fee_delta(gas_limit, gas_used, base_fee) <= base_fee,
{
    let target = gas_target(gas_limit) as int;
    let distance = target - gas_used;
    let fee = base_fee as int;
    assert(fee * distance <= fee * target) by (nonlinear_arith)
        requires
            0 <= distance <= target,
            0 <= fee,
    ;
    assert(0 <= fee * distance) by (nonlinear_arith)
        requires
            0 <= distance,
            0 <= fee,
    ;
    lemma_div_is_ordered(fee * distance, fee * target, target);
    lemma_div_multiples_vanish(fee, target);
    assert(fee * distance / target <= fee);
    lemma_div_pos_is_pos(fee * distance, target);
    lemma_div_is_ordered(fee * distance / target, fee, 8);
}

/// The fee follows demand. A parent that used its target exactly hands its fee
/// on; one that used more raises the fee; one that used less lowers it, by an
/// eighth at most and never below zero.
pub proof fn lemma_base_fee_follows_demand(gas_limit: nat, gas_used: nat, base_fee: nat)
    ensures
        gas_used == gas_target(gas_limit) ==> next_base_fee(gas_limit, gas_used, base_fee)
            == base_fee,
        gas_used > gas_target(gas_limit) ==> next_base_fee(gas_limit, gas_used, base_fee)
            > base_fee,
        gas_used < gas_target(gas_limit) ==> base_fee - base_fee / 8 <= next_base_fee(
            gas_limit,
            gas_used,
            base_fee,
        ) <= base_fee,
{
    if gas_used < gas_target(gas_limit) {
        lemma_delta_below_target(gas_limit, gas_used, base_fee);
    }
}

/// The base fee of a child of `parent`, or `None` where it is not defined.
pub fn checked_next_base_fee(parent: &Header) -> (fee: Option<U256>)
    ensures
        fee is Some <==> has_next_base_fee(parent@),
        fee matches Some(f) ==> f@ == spec_next_base_fee(parent@),
{
    let parent_base_fee = match parent.base_fee_per_gas {
        Some(fee) => fee,
        None => {
            return None;
        },
    };
    let elasticity = U256::from_u64(2);
    let denominator = U256::from_u64(8);
    let one = U256::from_u64(1);
    let target = match checked_div(&parent.gas_limit, &elasticity) {
        Some(target) => target,
        None => {
            return None;
        },
    };
    if parent.gas_used == target {
        proof {
            U256::lemma_view_injective(parent.gas_used, target);
        }
        return Some(parent_base_fee);
    }
    proof {
        U256::lemma_view_injective(parent.gas_used, target);
        U256::lemma_view_injective(parent_base_fee, parent_base_fee);
    }
    let below = parent.gas_used.lt(&target);
    let distance = if below {
        checked_sub(&target, &parent.gas_used)
    } else {
        checked_sub(&parent.gas_used, &target)
    };
    let distance = match distance {
        Some(distance) => distance,
        None => {
            return None;
        },
    };
    let product = match checked_mul(&parent_base_fee, &distance) {
        Some(product) => product,
        None => {
            return None;
        },
    };
    let per_target = match checked_div(&product, &target) {
        Some(quotient) => quotient,
        None => {
            return None;
        },
    };
    let delta = match checked_div(&per_target, &denominator) {
        Some(delta) => delta,
        None => {
            return None;
        },
    };
    assert(delta@ == base_fee_delta(parent.gas_limit@, parent.gas_used@, parent_base_fee@));
    if below {
        proof {
            lemma_delta_below_target(parent.gas_limit@, parent.gas_used@, parent_base_fee@);
        }
        checked_sub(&parent_base_fee, &delta)
    } else if one.lt(&delta) {
        checked_add(&parent_base_fee, &delta)
    } else {
        checked_add(&parent_base_fee, &one)
    }
}

/// The base fee of a child of `parent`.
pub fn calculate_next_base_fee(parent: &Header) -> (fee: U256)
    requires
        has_next_base_fee(parent@),
    ensures
        fee@ == spec_next_base_fee(parent@),
{
    match checked_next_base_fee(parent) {
        Some(fee) => fee,
        None => unreached(),
    }
}

} // verus!

