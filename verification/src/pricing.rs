//! What one step of an agenda is worth.

use crate::catalogue::HandicraftPricingInfo;
use crate::market::PopSupply;
use vstd::prelude::*;

verus! {

/// The worth of one run of a craft: its base value times both market
/// multipliers, rounded down, and twice that with the efficiency bonus.
pub open spec fn spec_abs_pricing(efficiency_bonus: bool, pop_supply: PopSupply, handicraft: HandicraftPricingInfo) -> nat {
    let marked_up = (pop_supply.popularity.spec_multiplier() * pop_supply.supply.spec_multiplier()
        * handicraft.value) / 100;
    if efficiency_bonus {
        (2 * marked_up) as nat
    } else {
        marked_up as nat
    }
}

/// The most that one run of a craft with this base value can be worth, in
/// whatever state the market is.
pub open spec fn max_abs_pricing(value: usize) -> nat {
    (2 * ((14 * 16 * value) / 100)) as nat
}

/// No market state and no bonus lifts a run above `max_abs_pricing`.
pub proof fn lemma_abs_pricing_bounded(efficiency_bonus: bool, pop_supply: PopSupply, handicraft: HandicraftPricingInfo)
    ensures
        spec_abs_pricing(efficiency_bonus, pop_supply, handicraft) <= max_abs_pricing(handicraft.value),
{
    let factor = pop_supply.popularity.spec_multiplier() * pop_supply.supply.spec_multiplier();
    assert(0 <= factor <= 224) by (nonlinear_arith)
        requires
            factor == pop_supply.popularity.spec_multiplier() * pop_supply.supply.spec_multiplier(),
            0 <= pop_supply.popularity.spec_multiplier() <= 14,
            0 <= pop_supply.supply.spec_multiplier() <= 16,
    ;
    let value = handicraft.value as int;
    assert(factor * value <= 224 * value) by (nonlinear_arith)
        requires
            0 <= factor <= 224,
            0 <= value,
    ;
    assert(14 * 16 * value == 224 * value);
}

/// The worth of one run of a craft.
pub fn calc_abs_pricing(efficiency_bonus: bool, pop_supply: PopSupply, handicraft: HandicraftPricingInfo) -> (worth:
    usize)
    requires
        spec_abs_pricing(efficiency_bonus, pop_supply, handicraft) <= usize::MAX,
    ensures
        worth == spec_abs_pricing(efficiency_bonus, pop_supply, handicraft),
{
    let popularity: u128 = pop_supply.popularity.multiplier() as u128;
    let supply: u128 = pop_supply.supply.multiplier() as u128;
    let factor: u128 = popularity * supply;
    let value: u128 = handicraft.value as u128;
    proof {
        assert(factor <= 224) by (nonlinear_arith)
            requires
                factor == popularity * supply,
                popularity <= 14,
                supply <= 16,
        ;
        assert(factor * value <= 224 * 0x1_0000_0000_0000_0000) by (nonlinear_arith)
            requires
                factor <= 224,
                value <= 0xffff_ffff_ffff_ffff,
        ;
    }
    let marked_up: u128 = factor * value / 100;
    if efficiency_bonus {
        (2 * marked_up) as usize
    } else {
        marked_up as usize
    }
}

} // verus!
