//! The records of the catalogue: crafts, what pricing reads of them, and the
//! rare materials whose stock the operator reports.

use crate::names::{CategoryName, HandicraftName, MaterialName};
use vstd::prelude::*;

verus! {

/// One craft of the catalogue.
#[derive(Debug, Clone)]
pub struct Handicraft {
    pub name: HandicraftName,
    /// Hours that one run takes.
    pub time: usize,
    /// Pieces that one run yields.
    pub quantity: usize,
    /// Base value of one run.
    pub value: usize,
    /// The categories the craft belongs to.
    pub category: Vec<CategoryName>,
    /// The materials one run consumes, each with its amount.
    pub materials: Vec<(MaterialName, usize)>,
}

/// What pricing and scheduling read of a craft.
#[derive(Debug, Clone, Copy, Hash, PartialEq, Eq, Structural)]
pub struct HandicraftPricingInfo {
    pub time: usize,
    pub quantity: usize,
    pub value: usize,
}

impl Handicraft {
    /// The materials stand for a mapping from material to amount: no
    /// material is listed twice.
    pub open spec fn wf(self) -> bool {
        forall|i: int, j: int|
            0 <= i < j < self.materials@.len() ==> (#[trigger] self.materials@[i]).0 != (
            #[trigger] self.materials@[j]).0
    }

    /// The part of the record that pricing and scheduling read.
    pub open spec fn spec_pricing_info(self) -> HandicraftPricingInfo {
        HandicraftPricingInfo { time: self.time, quantity: self.quantity, value: self.value }
    }

    /// The part of the record that pricing and scheduling read.
    pub fn as_pricing_info(&self) -> (info: HandicraftPricingInfo)
        ensures
            info == self.spec_pricing_info(),
    {
        HandicraftPricingInfo { time: self.time, quantity: self.quantity, value: self.value }
    }
}

/// A rare material that is grown or gathered.
#[derive(Debug, Clone, PartialEq, Eq, Hash)]
pub struct RareItem {
    pub name: MaterialName,
}

/// A rare material that is found in one area of the island.
#[derive(Debug, Clone, PartialEq, Eq, Hash)]
pub struct RareItemWithArea {
    pub name: MaterialName,
    pub area: String,
}

/// The rare materials of the catalogue, by the way they are obtained.
#[derive(Debug, Clone)]
pub struct RareItems {
    pub produce: Vec<RareItem>,
    pub material: Vec<RareItemWithArea>,
    pub leavings: Vec<RareItem>,
}

/// The whole catalogue.
#[derive(Debug, Clone)]
pub struct WorkshopData {
    pub handicrafts: Vec<Handicraft>,
    pub rare: RareItems,
}

/// A rare material of either shape.
#[derive(Debug, Clone, PartialEq, Eq, Hash)]
pub enum RareItemVariant {
    RareItem(RareItem),
    WithArea(RareItemWithArea),
}

impl RareItemVariant {
    /// The material, whatever the shape of the record.
    pub open spec fn spec_name(self) -> MaterialName {
        match self {
            RareItemVariant::RareItem(item) => item.name,
            RareItemVariant::WithArea(item) => item.name,
        }
    }

    /// The material, whatever the shape of the record.
    pub fn name(&self) -> (name: &MaterialName)
        ensures
            *name == self.spec_name(),
    {
        match self {
            RareItemVariant::RareItem(item) => &item.name,
            RareItemVariant::WithArea(item) => &item.name,
        }
    }
}

/// How much of a rare material is in stock.
#[derive(Debug, Clone, PartialEq, Eq, Hash)]
pub struct RareItemCount {
    pub rare: RareItemVariant,
    pub count: usize,
}

impl RareItemCount {
    /// The material that was counted.
    pub open spec fn spec_name(self) -> MaterialName {
        self.rare.spec_name()
    }

    /// The material that was counted.
    pub fn name(&self) -> (name: &MaterialName)
        ensures
            *name == self.spec_name(),
    {
        self.rare.name()
    }
}

/// The rare materials of the catalogue in the order in which their stock
/// is asked for: those found in an area first, then the produce, then the
/// leavings.
pub fn rare_item_variants(rare: &RareItems) -> (variants: Vec<RareItemVariant>)
    ensures
        variants@.len() == rare.material@.len() + rare.produce@.len() + rare.leavings@.len(),
        forall|i: int|
            0 <= i < rare.material@.len() ==> #[trigger] variants@[i] == RareItemVariant::WithArea(rare.material@[i]),
        forall|i: int|
            0 <= i < rare.produce@.len() ==> #[trigger] variants@[rare.material@.len() + i]
                == RareItemVariant::RareItem(rare.produce@[i]),
        forall|i: int|
            0 <= i < rare.leavings@.len() ==> #[trigger] variants@[rare.material@.len() + rare.produce@.len() + i]
                == RareItemVariant::RareItem(rare.leavings@[i]),
{
    let mut variants: Vec<RareItemVariant> = Vec::new();
    let mut m: usize = 0;
    while m < rare.material.len()
        invariant
            m <= rare.material.len(),
            variants@.len() == m,
            forall|i: int| 0 <= i < m ==> #[trigger] variants@[i] == RareItemVariant::WithArea(rare.material@[i]),
        decreases rare.material.len() - m,
    {
        let item = &rare.material[m];
        variants.push(RareItemVariant::WithArea(RareItemWithArea { name: item.name, area: item.area.clone() }));
        m += 1;
    }
    let mut p: usize = 0;
    while p < rare.produce.len()
        invariant
            m == rare.material.len(),
            p <= rare.produce.len(),
            variants@.len() == m + p,
            forall|i: int| 0 <= i < m ==> #[trigger] variants@[i] == RareItemVariant::WithArea(rare.material@[i]),
            forall|i: int| 0 <= i < p ==> #[trigger] variants@[m + i] == RareItemVariant::RareItem(rare.produce@[i]),
        decreases rare.produce.len() - p,
    {
        variants.push(RareItemVariant::RareItem(RareItem { name: rare.produce[p].name }));
        p += 1;
    }
    let mut l: usize = 0;
    while l < rare.leavings.len()
        invariant
            m == rare.material.len(),
            p == rare.produce.len(),
            l <= rare.leavings.len(),
            variants@.len() == m + p + l,
            forall|i: int| 0 <= i < m ==> #[trigger] variants@[i] == RareItemVariant::WithArea(rare.material@[i]),
            forall|i: int| 0 <= i < p ==> #[trigger] variants@[m + i] == RareItemVariant::RareItem(rare.produce@[i]),
            forall|i: int|
                0 <= i < l ==> #[trigger] variants@[m + p + i] == RareItemVariant::RareItem(rare.leavings@[i]),
        decreases rare.leavings.len() - l,
    {
        variants.push(RareItemVariant::RareItem(RareItem { name: rare.leavings[l].name }));
        l += 1;
    }
    variants
}

} // verus!
