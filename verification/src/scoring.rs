//! What an agenda is worth: the first step at its plain price, every later
//! step at twice that, and the sum of all steps.

use crate::catalogue::HandicraftPricingInfo;
use crate::index::HandicraftMap;
use crate::market::PopSupply;
use crate::memo::{spec_memo_key, PricingCache};
use crate::names::HandicraftName;
use crate::pricing::spec_abs_pricing;
use vstd::prelude::*;

verus! {

/// A sequence of crafts with the worth of each step and of the whole.
#[derive(Debug, Clone, PartialEq, Eq)]
pub struct Agenda {
    pub handicrafts: Vec<HandicraftName>,
    pub values: Vec<usize>,
    pub total_value: usize,
}

/// The worth of the step at `position`: the efficiency bonus holds for every
/// step but the first.
pub open spec fn step_value(
    pop_supplies: Map<HandicraftName, PopSupply>,
    pricing: Map<HandicraftName, HandicraftPricingInfo>,
    path: Seq<HandicraftName>,
    position: int,
) -> nat {
    spec_abs_pricing(position > 0, pop_supplies[path[position]], pricing[path[position]])
}

/// The worth of all steps together.
pub open spec fn total_value(
    pop_supplies: Map<HandicraftName, PopSupply>,
    pricing: Map<HandicraftName, HandicraftPricingInfo>,
    path: Seq<HandicraftName>,
) -> nat
    decreases path.len(),
{
    if path.len() == 0 {
        0
    } else {
        total_value(pop_supplies, pricing, path.drop_last()) + step_value(
            pop_supplies,
            pricing,
            path,
            path.len() - 1,
        )
    }
}

/// The key under which the price of the step at `position` is remembered.
pub open spec fn step_key(
    pop_supplies: Map<HandicraftName, PopSupply>,
    pricing: Map<HandicraftName, HandicraftPricingInfo>,
    path: Seq<HandicraftName>,
    position: int,
) -> (bool, usize, usize, usize, usize, usize) {
    spec_memo_key(position > 0, pop_supplies[path[position]], pricing[path[position]])
}

/// Whether `key` is the key under which the price of one of the first
/// `length` steps of `path` is remembered.
pub open spec fn is_asked(
    pop_supplies: Map<HandicraftName, PopSupply>,
    pricing: Map<HandicraftName, HandicraftPricingInfo>,
    path: Seq<HandicraftName>,
    length: int,
    key: (bool, usize, usize, usize, usize, usize),
) -> bool {
    exists|position: int|
        0 <= position < length && key == #[trigger] step_key(pop_supplies, pricing, path, position)
}

impl Agenda {
    /// Whether the values of this agenda are those that the market and the
    /// pricing table give to its crafts.
    pub open spec fn is_scored(
        self,
        pop_supplies: Map<HandicraftName, PopSupply>,
        pricing: Map<HandicraftName, HandicraftPricingInfo>,
    ) -> bool {
        &&& self.values@.len() == self.handicrafts@.len()
        &&& forall|position: int|
            0 <= position < self.values@.len() ==> #[trigger] self.values@[position] == step_value(
                pop_supplies,
                pricing,
                self.handicrafts@,
                position,
            )
        &&& self.total_value == total_value(pop_supplies, pricing, self.handicrafts@)
    }
}

/// Appending a step to a sequence that has one adds the step's price with
/// the efficiency bonus and leaves the rest as it was. What is added is
/// never negative; it is positive as soon as the marked-up value reaches one,
/// which every base value from three on does.
pub proof fn lemma_appended_step_adds_value(
    pop_supplies: Map<HandicraftName, PopSupply>,
    pricing: Map<HandicraftName, HandicraftPricingInfo>,
    path: Seq<HandicraftName>,
    next: HandicraftName,
)
    requires
        path.len() > 0,
    ensures
        total_value(pop_supplies, pricing, path.push(next)) == total_value(pop_supplies, pricing, path)
            + spec_abs_pricing(true, pop_supplies[next], pricing[next]),
        total_value(pop_supplies, pricing, path.push(next)) >= total_value(pop_supplies, pricing, path),
        pop_supplies[next].popularity.spec_multiplier() * pop_supplies[next].supply.spec_multiplier()
            * pricing[next].value >= 100 ==> total_value(pop_supplies, pricing, path.push(next)) > total_value(
            pop_supplies,
            pricing,
            path,
        ),
        pricing[next].value >= 3 ==> total_value(pop_supplies, pricing, path.push(next)) > total_value(
            pop_supplies,
            pricing,
            path,
        ),
{
    assert(path.push(next).drop_last() =~= path);
    let popularity = pop_supplies[next].popularity.spec_multiplier() as int;
    let supply = pop_supplies[next].supply.spec_multiplier() as int;
    let value = pricing[next].value as int;
    if value >= 3 {
        assert(popularity * supply >= 48) by (nonlinear_arith)
            requires
                popularity >= 8,
                supply >= 6,
        ;
        assert(popularity * supply * value >= 100) by (nonlinear_arith)
            requires
                popularity * supply >= 48,
                value >= 3,
        ;
    }
}

/// The steps of a beginning are worth what they are worth in the whole, and
/// a beginning is worth no more than the whole.
pub proof fn lemma_total_value_of_prefix(
    pop_supplies: Map<HandicraftName, PopSupply>,
    pricing: Map<HandicraftName, HandicraftPricingInfo>,
    path: Seq<HandicraftName>,
    length: int,
)
    requires
        0 <= length <= path.len(),
    ensures
        total_value(pop_supplies, pricing, path.take(length)) <= total_value(pop_supplies, pricing, path),
        length < path.len() ==> total_value(pop_supplies, pricing, path.take(length + 1)) == total_value(
            pop_supplies,
            pricing,
            path.take(length),
        ) + step_value(pop_supplies, pricing, path, length),
    decreases path.len() - length,
{
    if length < path.len() {
        assert(path.take(length + 1).drop_last() =~= path.take(length));
        lemma_total_value_of_prefix(pop_supplies, pricing, path, length + 1);
    } else {
        assert(path.take(length) =~= path);
    }
}

/// A sequence whose steps are each worth at most `bound` is worth at most
/// as many times `bound` as it has steps.
pub proof fn lemma_total_value_bounded(
    pop_supplies: Map<HandicraftName, PopSupply>,
    pricing: Map<HandicraftName, HandicraftPricingInfo>,
    path: Seq<HandicraftName>,
    bound: nat,
)
    requires
        forall|position: int|
            0 <= position < path.len() ==> #[trigger] step_value(pop_supplies, pricing, path, position) <= bound,
    ensures
        total_value(pop_supplies, pricing, path) <= path.len() * bound,
    decreases path.len(),
{
    if path.len() > 0 {
        let shorter = path.drop_last();
        assert forall|position: int| 0 <= position < shorter.len() implies #[trigger] step_value(
            pop_supplies,
            pricing,
            shorter,
            position,
        ) <= bound by {
            assert(step_value(pop_supplies, pricing, path, position) <= bound);
        }
        lemma_total_value_bounded(pop_supplies, pricing, shorter, bound);
        assert(step_value(pop_supplies, pricing, path, path.len() - 1) <= bound);
        assert(path.len() * bound == shorter.len() * bound + bound) by (nonlinear_arith)
            requires
                path.len() == shorter.len() + 1,
        ;
    }
}

/// Prices every step of `agenda` and adds the prices up.
pub fn calc_agenda(
    agenda: Vec<HandicraftName>,
    handicraft_pop_supplies: &HandicraftMap<PopSupply>,
    handicraft_pricing_info: &HandicraftMap<HandicraftPricingInfo>,
    cache: &mut PricingCache,
) -> (scored: Agenda)
    requires
        old(cache).wf(),
        forall|position: int|
            0 <= position < agenda@.len() ==> handicraft_pop_supplies@.contains_key(#[trigger] agenda@[position])
                && handicraft_pricing_info@.contains_key(agenda@[position]),
        total_value(handicraft_pop_supplies@, handicraft_pricing_info@, agenda@) <= usize::MAX,
    ensures
        final(cache).wf(),
        scored.handicrafts@ == agenda@,
        scored.is_scored(handicraft_pop_supplies@, handicraft_pricing_info@),
        forall|key: (bool, usize, usize, usize, usize, usize)|
            final(cache)@.contains_key(key) <==> (#[trigger] old(cache)@.contains_key(key) || is_asked(
                handicraft_pop_supplies@,
                handicraft_pricing_info@,
                agenda@,
                agenda@.len() as int,
                key,
            )),
{
    let ghost pop_supplies = handicraft_pop_supplies@;
    let ghost pricing = handicraft_pricing_info@;
    let ghost remembered = cache@;
    let mut values: Vec<usize> = Vec::with_capacity(agenda.len());
    let mut total: usize = 0;
    let mut i: usize = 0;
    while i < agenda.len()
        invariant
            cache.wf(),
            pop_supplies == handicraft_pop_supplies@,
            pricing == handicraft_pricing_info@,
            forall|position: int|
                0 <= position < agenda@.len() ==> pop_supplies.contains_key(#[trigger] agenda@[position])
                    && pricing.contains_key(agenda@[position]),
            total_value(pop_supplies, pricing, agenda@) <= usize::MAX,
            i <= agenda.len(),
            values@.len() == i,
            forall|position: int|
                0 <= position < i ==> #[trigger] values@[position] == step_value(
                    pop_supplies,
                    pricing,
                    agenda@,
                    position,
                ),
            total == total_value(pop_supplies, pricing, agenda@.take(i as int)),
            forall|key: (bool, usize, usize, usize, usize, usize)|
                cache@.contains_key(key) <==> (#[trigger] remembered.contains_key(key) || is_asked(
                    pop_supplies,
                    pricing,
                    agenda@,
                    i as int,
                    key,
                )),
        decreases agenda.len() - i,
    {
        let name = agenda[i];
        proof {
            assert(pop_supplies.contains_key(agenda@[i as int]));
            lemma_total_value_of_prefix(pop_supplies, pricing, agenda@, i as int);
            lemma_total_value_of_prefix(pop_supplies, pricing, agenda@, i as int + 1);
        }
        let pop_supply = *handicraft_pop_supplies.get(name).unwrap();
        let info = *handicraft_pricing_info.get(name).unwrap();
        let ghost cache_before = cache@;
        let ghost done = i as int;
        assert forall|key: (bool, usize, usize, usize, usize, usize)|
            cache_before.contains_key(key) <==> (#[trigger] remembered.contains_key(key) || is_asked(
                pop_supplies,
                pricing,
                agenda@,
                done,
                key,
            )) by {}
        let worth = cache.calc_abs_pricing(i > 0, pop_supply, info);
        values.push(worth);
        total = total + worth;
        i += 1;
        proof {
            let asked = step_key(pop_supplies, pricing, agenda@, done);
            assert(cache@ == cache_before.insert(asked, worth));
            assert forall|key: (bool, usize, usize, usize, usize, usize)|
                is_asked(pop_supplies, pricing, agenda@, i as int, key) <==> (is_asked(
                    pop_supplies,
                    pricing,
                    agenda@,
                    done,
                    key,
                ) || key == asked) by {
                if is_asked(pop_supplies, pricing, agenda@, done, key) {
                    let position = choose|position: int|
                        0 <= position < done && key == #[trigger] step_key(pop_supplies, pricing, agenda@, position);
                    assert(key == step_key(pop_supplies, pricing, agenda@, position));
                }
                if is_asked(pop_supplies, pricing, agenda@, i as int, key) {
                    let position = choose|position: int|
                        0 <= position < i && key == #[trigger] step_key(pop_supplies, pricing, agenda@, position);
                    if position < done {
                        assert(key == step_key(pop_supplies, pricing, agenda@, position));
                    }
                }
            }
            assert forall|key: (bool, usize, usize, usize, usize, usize)|
                cache@.contains_key(key) <==> (#[trigger] remembered.contains_key(key) || is_asked(
                    pop_supplies,
                    pricing,
                    agenda@,
                    i as int,
                    key,
                )) by {
                assert(cache_before.contains_key(key) <==> (remembered.contains_key(key) || is_asked(
                    pop_supplies,
                    pricing,
                    agenda@,
                    done,
                    key,
                )));
            }
        }
    }
    proof {
        assert(agenda@.take(i as int) =~= agenda@);
    }
    Agenda { handicrafts: agenda, values, total_value: total }
}

} // verus!
