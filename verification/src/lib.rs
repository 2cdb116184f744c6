//! Planning of workshop agendas: which crafts to make one after another within
//! a cycle, and what each plan is worth.
//!
//! A catalogue of crafts becomes a graph that links every craft to its
//! categories ([`recipe_graph`]). Crafts that need a rare material of which
//! nothing is in stock are taken out ([`availability`]). From every craft
//! that is left, the search goes to crafts that share a category with the
//! last one for as long as the cycle has room ([`search`], [`generator`]).
//! Every sequence that cannot go on is an agenda; it is scored under the
//! market of the day ([`pricing`], [`memo`], [`scoring`]) and ranked by its
//! worth ([`ranking`]). [`plan_agendas`] does all of this in one call.
//!
//! What a sequence must be like to be an agenda is said once, in
//! [`SearchSpace`], and the contracts of the functions refer to it.

pub mod agenda;
pub mod availability;
pub mod catalogue;
pub mod generator;
pub mod graph;
pub mod index;
pub mod market;
pub mod memo;
pub mod names;
pub mod order;
pub mod pricing;
pub mod ranking;
pub mod recipe_graph;
pub mod scoring;
pub mod search;

pub use agenda::{find_agendas, plan_agendas, CatalogueError};
pub use availability::remove_unmakeable_recipes;
pub use catalogue::{
    rare_item_variants, Handicraft, HandicraftPricingInfo, RareItem, RareItemCount, RareItemVariant,
    RareItemWithArea, RareItems, WorkshopData,
};
pub use generator::{generate_agendas, AgendaGeneratorResult, AgendaGeneratorResultIterator};
pub use graph::{Direction, HandicraftGraph, HandicraftGraphNode};
pub use index::HandicraftMap;
pub use market::{PopSupply, Popularity, PopularityDeserializeError, Supply, SupplyDeserializeError};
pub use memo::PricingCache;
pub use names::{CategoryName, HandicraftName, MaterialName};
pub use pricing::calc_abs_pricing;
pub use ranking::rank_insert;
pub use recipe_graph::{create_handicraft_graph, pricing_index};
pub use scoring::{calc_agenda, Agenda};
pub use search::{RepetitionPolicy, SearchSpace, MIN_PRODUCT_TIME, TIME_IN_CYCLE};
