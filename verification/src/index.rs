//! Lookup tables keyed by craft.

use crate::names::HandicraftName;
use std::collections::HashMap;
use vstd::prelude::*;

verus! {

broadcast use vstd::std_specs::hash::group_hash_axioms;

/// A table from crafts to values of one kind.
///
/// The entries live in a hash map keyed by the craft's code; the view is the
/// table as a map from the crafts themselves.
#[derive(Debug)]
pub struct HandicraftMap<V> {
    entries: HashMap<u8, V>,
}

impl<V> View for HandicraftMap<V> {
    type V = Map<HandicraftName, V>;

    closed spec fn view(&self) -> Map<HandicraftName, V> {
        Map::new(
            |name: HandicraftName| self.entries@.contains_key(name.spec_code()),
            |name: HandicraftName| self.entries@[name.spec_code()],
        )
    }
}

impl<V> HandicraftMap<V> {
    /// The table without entries.
    pub fn new() -> (table: HandicraftMap<V>)
        ensures
            table@ == Map::<HandicraftName, V>::empty(),
    {
        let table = HandicraftMap { entries: HashMap::new() };
        assert(table@ =~= Map::<HandicraftName, V>::empty());
        table
    }

    /// Sets the value of `name` and hands back the value it had before.
    pub fn insert(&mut self, name: HandicraftName, value: V) -> (earlier: Option<V>)
        ensures
            final(self)@ == old(self)@.insert(name, value),
            earlier == if old(self)@.contains_key(name) {
                Some(old(self)@[name])
            } else {
                None
            },
    {
        let earlier = self.entries.insert(name.code(), value);
        proof {
            assert forall|other: HandicraftName| other.spec_code() == name.spec_code() <==> other == name by {
                other.lemma_code_injective(name);
            }
            assert(self@ =~= old(self)@.insert(name, value));
        }
        earlier
    }

    /// The value of `name`, if it has one.
    pub fn get(&self, name: HandicraftName) -> (value: Option<&V>)
        ensures
            value == if self@.contains_key(name) {
                Some(&self@[name])
            } else {
                None
            },
    {
        let code = name.code();
        self.entries.get(&code)
    }

    /// Whether `name` has a value.
    pub fn contains_key(&self, name: HandicraftName) -> (present: bool)
        ensures
            present == self@.contains_key(name),
    {
        let code = name.code();
        self.entries.contains_key(&code)
    }
}

} // verus!
