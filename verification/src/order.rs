//! The order of agendas: by what they are worth, and by nothing else.

use crate::scoring::Agenda;
use std::cmp::Ordering;
use vstd::prelude::*;
use vstd::std_specs::cmp::PartialOrdSpecImpl;

verus! {

impl PartialOrd for Agenda {
    /// Compares what the two agendas are worth.
    fn partial_cmp(&self, other: &Agenda) -> (order: Option<Ordering>) {
        if self.total_value < other.total_value {
            Some(Ordering::Less)
        } else if self.total_value > other.total_value {
            Some(Ordering::Greater)
        } else {
            Some(Ordering::Equal)
        }
    }
}

impl PartialOrdSpecImpl for Agenda {
    open spec fn obeys_partial_cmp_spec() -> bool {
        true
    }

    open spec fn partial_cmp_spec(&self, other: &Agenda) -> Option<Ordering> {
        if self.total_value < other.total_value {
            Some(Ordering::Less)
        } else if self.total_value > other.total_value {
            Some(Ordering::Greater)
        } else {
            Some(Ordering::Equal)
        }
    }
}

} // verus!
