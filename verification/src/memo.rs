//! A memory for prices that were worked out once.
//!
//! The entries are kept by an `UnboundCache` of the `cached` crate. What this
//! library assumes of that cache is written down in the contracts of the
//! `store_*` functions below; the rest is proved from them.

use crate::catalogue::HandicraftPricingInfo;
use crate::market::PopSupply;
use crate::pricing::{calc_abs_pricing, spec_abs_pricing};
use cached::{Cached, UnboundCache};
use std::collections::hash_map::RandomState;
use vstd::prelude::*;

verus! {

/// `cached::UnboundCache`, taken as it is: the proofs see nothing inside it.
#[verifier::external_type_specification]
#[verifier::external_body]
#[verifier::reject_recursive_types(K)]
#[verifier::reject_recursive_types(V)]
#[verifier::reject_recursive_types(S)]
pub struct ExUnboundCache<K, V, S>(UnboundCache<K, V, S>);

/// The entries that an `UnboundCache` holds.
pub uninterp spec fn cache_entries(cache: UnboundCache<(bool, usize, usize, usize, usize, usize), usize, RandomState>) -> Map<(bool, usize, usize, usize, usize, usize), usize>;

/// `UnboundCache::new`: assumed to give a cache without entries.
#[verifier::external_body]
fn store_new() -> (store: UnboundCache<(bool, usize, usize, usize, usize, usize), usize, RandomState>)
    ensures
        forall|key: (bool, usize, usize, usize, usize, usize)| !cache_entries(store).contains_key(key),
{
    UnboundCache::new()
}

/// `Cached::cache_get` of an `UnboundCache`: assumed to return the value
/// stored under the key, if there is one, and to leave the entries as they
/// are.
#[verifier::external_body]
fn store_get(
    store: &mut UnboundCache<(bool, usize, usize, usize, usize, usize), usize, RandomState>,
    key: &(bool, usize, usize, usize, usize, usize),
) -> (hit: Option<usize>)
    ensures
        cache_entries(*final(store)) == cache_entries(*old(store)),
        hit == if cache_entries(*old(store)).contains_key(*key) {
            Some(cache_entries(*old(store))[*key])
        } else {
            None
        },
{
    store.cache_get(key).copied()
}

/// `Cached::cache_set` of an `UnboundCache`: assumed to store the value
/// under the key, to leave the other entries as they are, and to return the
/// value that the key had before.
#[verifier::external_body]
fn store_set(
    store: &mut UnboundCache<(bool, usize, usize, usize, usize, usize), usize, RandomState>,
    key: (bool, usize, usize, usize, usize, usize),
    value: usize,
) -> (earlier: Option<usize>)
    ensures
        cache_entries(*final(store)) == cache_entries(*old(store)).insert(key, value),
        earlier == if cache_entries(*old(store)).contains_key(key) {
            Some(cache_entries(*old(store))[key])
        } else {
            None
        },
{
    store.cache_set(key, value)
}

/// The key under which the price of one step is remembered: everything
/// that the step's price is asked with.
pub open spec fn spec_memo_key(efficiency_bonus: bool, pop_supply: PopSupply, handicraft: HandicraftPricingInfo) -> (
    bool,
    usize,
    usize,
    usize,
    usize,
    usize,
) {
    (
        efficiency_bonus,
        pop_supply.popularity.spec_multiplier(),
        pop_supply.supply.spec_multiplier(),
        handicraft.time,
        handicraft.quantity,
        handicraft.value,
    )
}

/// The price that belongs under a key.
pub open spec fn price_under(key: (bool, usize, usize, usize, usize, usize)) -> nat {
    let marked_up = (key.1 * key.2 * key.5) / 100;
    if key.0 {
        (2 * marked_up) as nat
    } else {
        marked_up as nat
    }
}

/// The prices that were asked for so far.
pub struct PricingCache {
    store: UnboundCache<(bool, usize, usize, usize, usize, usize), usize, RandomState>,
}

impl View for PricingCache {
    type V = Map<(bool, usize, usize, usize, usize, usize), usize>;

    closed spec fn view(&self) -> Map<(bool, usize, usize, usize, usize, usize), usize> {
        cache_entries(self.store)
    }
}

impl PricingCache {
    /// Every remembered price is the price that belongs under its key.
    pub open spec fn wf(self) -> bool {
        forall|key: (bool, usize, usize, usize, usize, usize)| #[trigger]
            self@.contains_key(key) ==> self@[key] == price_under(key)
    }

    /// A memory that holds nothing yet.
    pub fn new() -> (cache: PricingCache)
        ensures
            cache.wf(),
            cache@ == Map::<(bool, usize, usize, usize, usize, usize), usize>::empty(),
    {
        let cache = PricingCache { store: store_new() };
        assert(cache@ =~= Map::<(bool, usize, usize, usize, usize, usize), usize>::empty());
        cache
    }

    /// The worth of one run of a craft, looked up if it was asked for
    /// before and worked out and remembered otherwise. A price that is
    /// remembered already leaves the memory as it was.
    pub fn calc_abs_pricing(
        &mut self,
        efficiency_bonus: bool,
        pop_supply: PopSupply,
        handicraft: HandicraftPricingInfo,
    ) -> (worth: usize)
        requires
            old(self).wf(),
            spec_abs_pricing(efficiency_bonus, pop_supply, handicraft) <= usize::MAX,
        ensures
            final(self).wf(),
            worth == spec_abs_pricing(efficiency_bonus, pop_supply, handicraft),
            final(self)@ == old(self)@.insert(spec_memo_key(efficiency_bonus, pop_supply, handicraft), worth),
            old(self)@.contains_key(spec_memo_key(efficiency_bonus, pop_supply, handicraft)) ==> final(self)@
                == old(self)@,
    {
        let key = (
            efficiency_bonus,
            pop_supply.popularity.multiplier(),
            pop_supply.supply.multiplier(),
            handicraft.time,
            handicraft.quantity,
            handicraft.value,
        );
        match store_get(&mut self.store, &key) {
            Some(worth) => {
                proof {
                    assert(old(self)@.contains_key(key));
                    assert(self@ =~= old(self)@.insert(key, worth));
                }
                worth
            },
            None => {
                let worth = calc_abs_pricing(efficiency_bonus, pop_supply, handicraft);
                store_set(&mut self.store, key, worth);
                proof {
                    assert(price_under(key) == spec_abs_pricing(efficiency_bonus, pop_supply, handicraft));
                    assert forall|other: (bool, usize, usize, usize, usize, usize)| #[trigger]
                        self@.contains_key(other) implies self@[other] == price_under(other) by {
                        if other != key {
                            assert(old(self)@.contains_key(other));
                        }
                    }
                }
                worth
            },
        }
    }
}

} // verus!
