use mji_agenda::{
    create_handicraft_graph, find_agendas, plan_agendas, pricing_index, Agenda, CatalogueError, CategoryName,
    Handicraft, HandicraftMap, HandicraftName, MaterialName, PopSupply, Popularity, RareItem, RareItemCount,
    RareItemVariant, RareItemWithArea, RepetitionPolicy, Supply,
};

const CHAIR: HandicraftName = HandicraftName::IsleworksWoodenChair;
const TABLE: HandicraftName = HandicraftName::IsleworksBrickCounter;
const POTION: HandicraftName = HandicraftName::IsleworksPotion;
const ROPE: HandicraftName = HandicraftName::IsleworksRope;
const BED: HandicraftName = HandicraftName::IsleworksBed;

fn craft(name: HandicraftName, time: usize, value: usize, category: Vec<CategoryName>) -> Handicraft {
    Handicraft { name, time, quantity: 1, value, category, materials: Vec::new() }
}

fn craft_of(
    name: HandicraftName,
    time: usize,
    value: usize,
    category: Vec<CategoryName>,
    materials: Vec<(MaterialName, usize)>,
) -> Handicraft {
    Handicraft { name, time, quantity: 1, value, category, materials }
}

fn plain_market(handicrafts: &Vec<Handicraft>) -> HandicraftMap<PopSupply> {
    let mut market = HandicraftMap::new();
    for handicraft in handicrafts {
        market.insert(handicraft.name, PopSupply { popularity: Popularity::Average, supply: Supply::Sufficient });
    }
    market
}

fn stock(name: MaterialName, count: usize) -> RareItemCount {
    RareItemCount { rare: RareItemVariant::RareItem(RareItem { name }), count }
}

fn plan(handicrafts: &Vec<Handicraft>, counts: Vec<RareItemCount>, policy: RepetitionPolicy) -> Vec<Agenda> {
    match plan_agendas(handicrafts, plain_market(handicrafts), counts, policy) {
        Ok(ranked) => ranked,
        Err(fault) => panic!("the catalogue was turned down: {:?}", fault),
    }
}

fn paths(ranked: &Vec<Agenda>) -> Vec<Vec<HandicraftName>> {
    let mut all: Vec<Vec<HandicraftName>> = ranked.iter().map(|agenda| agenda.handicrafts.clone()).collect();
    all.sort();
    all
}

fn chair_and_table() -> Vec<Handicraft> {
    vec![craft(CHAIR, 4, 100, vec![CategoryName::Woodworks]), craft(TABLE, 4, 200, vec![CategoryName::Woodworks])]
}

/// A small workshop with crafts of several lengths in overlapping categories.
fn workshop() -> Vec<Handicraft> {
    vec![
        craft(CHAIR, 6, 100, vec![CategoryName::Woodworks, CategoryName::Furnishings]),
        craft(TABLE, 8, 200, vec![CategoryName::Furnishings]),
        craft(POTION, 4, 50, vec![CategoryName::Concoctions]),
        craft(ROPE, 4, 30, vec![CategoryName::Sundries, CategoryName::Textiles]),
        craft(BED, 8, 300, vec![CategoryName::Furnishings, CategoryName::Textiles]),
    ]
}

fn time_of(handicrafts: &Vec<Handicraft>, name: HandicraftName) -> usize {
    handicrafts.iter().find(|handicraft| handicraft.name == name).unwrap().time
}

fn share_category(handicrafts: &Vec<Handicraft>, one: HandicraftName, other: HandicraftName) -> bool {
    let first = handicrafts.iter().find(|handicraft| handicraft.name == one).unwrap();
    let second = handicrafts.iter().find(|handicraft| handicraft.name == other).unwrap();
    first.category.iter().any(|category| second.category.contains(category))
}

/// Every agenda of a catalogue, found by plain recursion over the records.
fn agendas_by_hand(handicrafts: &Vec<Handicraft>, policy: RepetitionPolicy) -> Vec<Vec<HandicraftName>> {
    fn grow(
        handicrafts: &Vec<Handicraft>,
        policy: RepetitionPolicy,
        path: Vec<HandicraftName>,
        elapsed: usize,
        found: &mut Vec<Vec<HandicraftName>>,
    ) {
        let last = *path.last().unwrap();
        let mut grew = false;
        if elapsed <= 20 {
            for next in handicrafts {
                let allowed = match policy {
                    RepetitionPolicy::ForbidPrevious => next.name != last,
                    RepetitionPolicy::ForbidUsed => !path.contains(&next.name),
                };
                if allowed && share_category(handicrafts, last, next.name) && elapsed + next.time <= 24 {
                    let mut longer = path.clone();
                    longer.push(next.name);
                    grow(handicrafts, policy, longer, elapsed + next.time, found);
                    grew = true;
                }
            }
        }
        if !grew {
            found.push(path);
        }
    }
    let mut found = Vec::new();
    for start in handicrafts {
        if start.time <= 24 {
            grow(handicrafts, policy, vec![start.name], start.time, &mut found);
        }
    }
    found.sort();
    found
}

#[test]
fn chair_and_table_without_reuse() {
    let ranked = plan(&chair_and_table(), Vec::new(), RepetitionPolicy::ForbidUsed);
    assert_eq!(ranked.len(), 2);
    assert_eq!(ranked[0].handicrafts, vec![CHAIR, TABLE]);
    assert_eq!(ranked[0].values, vec![100, 400]);
    assert_eq!(ranked[0].total_value, 500);
    assert_eq!(ranked[1].handicrafts, vec![TABLE, CHAIR]);
    assert_eq!(ranked[1].values, vec![200, 200]);
    assert_eq!(ranked[1].total_value, 400);
}

#[test]
fn chair_and_table_taking_turns() {
    let ranked = plan(&chair_and_table(), Vec::new(), RepetitionPolicy::ForbidPrevious);
    assert_eq!(ranked.len(), 2);
    assert_eq!(ranked[0].handicrafts, vec![CHAIR, TABLE, CHAIR, TABLE, CHAIR, TABLE]);
    assert_eq!(ranked[0].values, vec![100, 400, 200, 400, 200, 400]);
    assert_eq!(ranked[0].total_value, 1700);
    assert_eq!(ranked[1].handicrafts, vec![TABLE, CHAIR, TABLE, CHAIR, TABLE, CHAIR]);
    assert_eq!(ranked[1].total_value, 1600);
}

#[test]
fn find_agendas_agrees_with_plan_agendas() {
    let handicrafts = workshop();
    let (recipe_nodes, graph) = create_handicraft_graph(&handicrafts);
    let found = find_agendas(
        &handicrafts,
        plain_market(&handicrafts),
        Vec::new(),
        recipe_nodes,
        graph,
        pricing_index(&handicrafts),
        RepetitionPolicy::ForbidPrevious,
    );
    let planned = plan(&handicrafts, Vec::new(), RepetitionPolicy::ForbidPrevious);
    assert_eq!(found, planned);
}

#[test]
fn exhausted_material_excludes_the_craft() {
    let handicrafts = vec![
        craft_of(CHAIR, 4, 100, vec![CategoryName::Woodworks], vec![(MaterialName::IslandLog, 2)]),
        craft_of(
            TABLE,
            4,
            200,
            vec![CategoryName::Woodworks],
            vec![(MaterialName::IslandLog, 1), (MaterialName::SanctuaryFleece, 1)],
        ),
    ];
    let counts = vec![stock(MaterialName::SanctuaryFleece, 0), stock(MaterialName::SanctuaryMilk, 3)];
    let ranked = plan(&handicrafts, counts, RepetitionPolicy::ForbidPrevious);
    assert_eq!(paths(&ranked), vec![vec![CHAIR]]);
    assert_eq!(ranked[0].total_value, 100);
}

#[test]
fn exhausted_material_excludes_a_sole_craft() {
    let handicrafts =
        vec![craft_of(CHAIR, 4, 100, vec![CategoryName::Woodworks], vec![(MaterialName::SanctuaryHorn, 1)])];
    let counts = vec![stock(MaterialName::SanctuaryHorn, 0)];
    let ranked = plan(&handicrafts, counts, RepetitionPolicy::ForbidPrevious);
    assert!(ranked.is_empty());
}

#[test]
fn material_in_stock_excludes_nothing() {
    let handicrafts =
        vec![craft_of(CHAIR, 4, 100, vec![CategoryName::Woodworks], vec![(MaterialName::SanctuaryHorn, 1)])];
    let counts = vec![stock(MaterialName::SanctuaryHorn, 1)];
    let ranked = plan(&handicrafts, counts, RepetitionPolicy::ForbidPrevious);
    assert_eq!(paths(&ranked), vec![vec![CHAIR]]);
}

#[test]
fn material_with_area_counts_like_any_other() {
    let handicrafts = vec![
        craft_of(CHAIR, 4, 100, vec![CategoryName::Woodworks], vec![(MaterialName::IslandSpruceLog, 1)]),
        craft(TABLE, 4, 200, vec![CategoryName::Woodworks]),
    ];
    let counts = vec![RareItemCount {
        rare: RareItemVariant::WithArea(RareItemWithArea {
            name: MaterialName::IslandSpruceLog,
            area: String::from("north"),
        }),
        count: 0,
    }];
    let ranked = plan(&handicrafts, counts, RepetitionPolicy::ForbidPrevious);
    assert_eq!(paths(&ranked), vec![vec![TABLE]]);
}

#[test]
fn craft_of_twenty_one_hours_stands_alone() {
    let handicrafts = vec![
        craft(CHAIR, 21, 100, vec![CategoryName::Woodworks]),
        craft(TABLE, 3, 200, vec![CategoryName::Woodworks]),
    ];
    let ranked = plan(&handicrafts, Vec::new(), RepetitionPolicy::ForbidPrevious);
    assert!(paths(&ranked).contains(&vec![CHAIR]));
    for agenda in &ranked {
        if agenda.handicrafts[0] == CHAIR {
            assert_eq!(agenda.handicrafts.len(), 1);
        }
    }
}

#[test]
fn craft_of_twenty_hours_admits_one_more() {
    let handicrafts = vec![
        craft(CHAIR, 20, 100, vec![CategoryName::Woodworks]),
        craft(TABLE, 4, 200, vec![CategoryName::Woodworks]),
    ];
    let ranked = plan(&handicrafts, Vec::new(), RepetitionPolicy::ForbidUsed);
    assert_eq!(paths(&ranked), vec![vec![CHAIR, TABLE], vec![TABLE, CHAIR]]);
}

#[test]
fn craft_longer_than_the_cycle_starts_nothing() {
    let handicrafts = vec![craft(CHAIR, 25, 100, vec![CategoryName::Woodworks])];
    let ranked = plan(&handicrafts, Vec::new(), RepetitionPolicy::ForbidPrevious);
    assert!(ranked.is_empty());
}

#[test]
fn empty_catalogue_gives_no_agenda() {
    let ranked = plan(&Vec::new(), Vec::new(), RepetitionPolicy::ForbidPrevious);
    assert!(ranked.is_empty());
}

#[test]
fn craft_without_neighbour_is_an_agenda_of_its_own() {
    let handicrafts =
        vec![craft(POTION, 4, 50, vec![CategoryName::Concoctions]), craft(ROPE, 4, 30, vec![CategoryName::Sundries])];
    let ranked = plan(&handicrafts, Vec::new(), RepetitionPolicy::ForbidPrevious);
    assert_eq!(ranked.len(), 2);
    assert_eq!(ranked[0].handicrafts, vec![POTION]);
    assert_eq!(ranked[0].total_value, 50);
    assert_eq!(ranked[1].handicrafts, vec![ROPE]);
    assert_eq!(ranked[1].total_value, 30);
}

#[test]
fn craft_without_category_is_an_agenda_of_its_own() {
    let handicrafts = vec![craft(POTION, 4, 50, Vec::new())];
    let ranked = plan(&handicrafts, Vec::new(), RepetitionPolicy::ForbidPrevious);
    assert_eq!(paths(&ranked), vec![vec![POTION]]);
}

#[test]
fn two_shared_categories_give_each_agenda_once() {
    let handicrafts = vec![
        craft(CHAIR, 12, 100, vec![CategoryName::Woodworks, CategoryName::Furnishings]),
        craft(TABLE, 12, 200, vec![CategoryName::Woodworks, CategoryName::Furnishings]),
    ];
    let ranked = plan(&handicrafts, Vec::new(), RepetitionPolicy::ForbidPrevious);
    assert_eq!(paths(&ranked), vec![vec![CHAIR, TABLE], vec![TABLE, CHAIR]]);
}

#[test]
fn workshop_agendas_match_the_search_by_hand() {
    let handicrafts = workshop();
    for policy in [RepetitionPolicy::ForbidPrevious, RepetitionPolicy::ForbidUsed] {
        let ranked = plan(&handicrafts, Vec::new(), policy);
        assert_eq!(paths(&ranked), agendas_by_hand(&handicrafts, policy));
    }
}

#[test]
fn workshop_agendas_fit_the_cycle() {
    let handicrafts = workshop();
    let ranked = plan(&handicrafts, Vec::new(), RepetitionPolicy::ForbidPrevious);
    assert!(!ranked.is_empty());
    for agenda in &ranked {
        let mut elapsed = 0;
        for name in &agenda.handicrafts {
            elapsed += time_of(&handicrafts, *name);
            assert!(elapsed <= 24);
        }
    }
}

#[test]
fn workshop_agendas_step_between_related_crafts() {
    let handicrafts = workshop();
    let ranked = plan(&handicrafts, Vec::new(), RepetitionPolicy::ForbidPrevious);
    for agenda in &ranked {
        for pair in agenda.handicrafts.windows(2) {
            assert_ne!(pair[0], pair[1]);
            assert!(share_category(&handicrafts, pair[0], pair[1]));
        }
    }
}

#[test]
fn workshop_agendas_without_reuse_hold_no_craft_twice() {
    let handicrafts = workshop();
    let ranked = plan(&handicrafts, Vec::new(), RepetitionPolicy::ForbidUsed);
    for agenda in &ranked {
        let mut seen = agenda.handicrafts.clone();
        seen.sort();
        seen.dedup();
        assert_eq!(seen.len(), agenda.handicrafts.len());
    }
}

#[test]
fn workshop_agendas_are_ranked_by_worth() {
    let handicrafts = workshop();
    let ranked = plan(&handicrafts, Vec::new(), RepetitionPolicy::ForbidPrevious);
    for pair in ranked.windows(2) {
        assert!(pair[0].total_value >= pair[1].total_value);
    }
    for agenda in &ranked {
        assert_eq!(agenda.values.iter().sum::<usize>(), agenda.total_value);
        assert_eq!(agenda.values.len(), agenda.handicrafts.len());
    }
}

#[test]
fn workshop_without_its_bed() {
    let mut handicrafts = workshop();
    handicrafts[4].materials.push((MaterialName::SanctuaryFleece, 2));
    let counts = vec![stock(MaterialName::SanctuaryFleece, 0)];
    let ranked = plan(&handicrafts, counts, RepetitionPolicy::ForbidPrevious);
    assert!(!ranked.is_empty());
    for agenda in &ranked {
        assert!(!agenda.handicrafts.contains(&BED));
    }
    let without_bed: Vec<Handicraft> = workshop().into_iter().filter(|handicraft| handicraft.name != BED).collect();
    assert_eq!(paths(&ranked), agendas_by_hand(&without_bed, RepetitionPolicy::ForbidPrevious));
}

#[test]
fn market_state_changes_the_ranking() {
    let handicrafts = chair_and_table();
    let mut market = HandicraftMap::new();
    market.insert(CHAIR, PopSupply { popularity: Popularity::VeryHigh, supply: Supply::Nonexistent });
    market.insert(TABLE, PopSupply { popularity: Popularity::Low, supply: Supply::Overflowing });
    let ranked = plan_agendas(&handicrafts, market, Vec::new(), RepetitionPolicy::ForbidUsed).unwrap();
    assert_eq!(ranked[0].handicrafts, vec![TABLE, CHAIR]);
    assert_eq!(ranked[0].values, vec![96, 448]);
    assert_eq!(ranked[0].total_value, 544);
    assert_eq!(ranked[1].handicrafts, vec![CHAIR, TABLE]);
    assert_eq!(ranked[1].values, vec![224, 192]);
    assert_eq!(ranked[1].total_value, 416);
}

#[test]
fn craft_without_time_is_reported() {
    let handicrafts = vec![craft(CHAIR, 4, 100, vec![CategoryName::Woodworks]), craft(TABLE, 0, 200, Vec::new())];
    let planned = plan_agendas(&handicrafts, plain_market(&handicrafts), Vec::new(), RepetitionPolicy::ForbidUsed);
    assert_eq!(planned, Err(CatalogueError::NoTime(TABLE)));
}

#[test]
fn craft_of_boundless_value_is_reported() {
    let handicrafts = vec![craft(CHAIR, 4, usize::MAX, vec![CategoryName::Woodworks])];
    let planned = plan_agendas(&handicrafts, plain_market(&handicrafts), Vec::new(), RepetitionPolicy::ForbidUsed);
    assert_eq!(planned, Err(CatalogueError::ValueTooLarge(CHAIR)));
}

#[test]
fn craft_without_market_state_is_reported() {
    let handicrafts = chair_and_table();
    let mut market = HandicraftMap::new();
    market.insert(CHAIR, PopSupply { popularity: Popularity::Average, supply: Supply::Sufficient });
    let planned = plan_agendas(&handicrafts, market, Vec::new(), RepetitionPolicy::ForbidUsed);
    assert_eq!(planned, Err(CatalogueError::NoMarketState(TABLE)));
}

#[test]
fn unmakeable_craft_needs_no_market_state() {
    let handicrafts = vec![
        craft(CHAIR, 4, 100, vec![CategoryName::Woodworks]),
        craft_of(TABLE, 4, 200, vec![CategoryName::Woodworks], vec![(MaterialName::SanctuaryClaw, 1)]),
    ];
    let mut market = HandicraftMap::new();
    market.insert(CHAIR, PopSupply { popularity: Popularity::Average, supply: Supply::Sufficient });
    let counts = vec![stock(MaterialName::SanctuaryClaw, 0)];
    let ranked = plan_agendas(&handicrafts, market, counts, RepetitionPolicy::ForbidUsed).unwrap();
    assert_eq!(paths(&ranked), vec![vec![CHAIR]]);
}

#[test]
fn first_fault_is_the_one_reported() {
    let handicrafts = vec![craft(CHAIR, 0, usize::MAX, vec![CategoryName::Woodworks]), craft(TABLE, 0, 200, Vec::new())];
    let planned = plan_agendas(&handicrafts, HandicraftMap::new(), Vec::new(), RepetitionPolicy::ForbidUsed);
    assert_eq!(planned, Err(CatalogueError::NoTime(CHAIR)));
}

/// A small generator of numbers that gives the same row on every run.
struct Dice(u64);

impl Dice {
    fn roll(&mut self, sides: u64) -> u64 {
        self.0 = self.0.wrapping_mul(6364136223846793005).wrapping_add(1442695040888963407);
        (self.0 >> 33) % sides
    }
}

#[test]
fn drawn_workshops_match_the_search_by_hand() {
    let names = [CHAIR, TABLE, POTION, ROPE, BED, HandicraftName::IsleworksHorn];
    let categories = [CategoryName::Woodworks, CategoryName::Furnishings, CategoryName::Sundries, CategoryName::Arms];
    let mut dice = Dice(2022);
    for _ in 0..40 {
        let count = 1 + dice.roll(names.len() as u64) as usize;
        let mut handicrafts = Vec::new();
        for name in names.iter().take(count) {
            let mut category = Vec::new();
            for candidate in categories {
                if dice.roll(3) == 0 {
                    category.push(candidate);
                }
            }
            let materials = if dice.roll(4) == 0 { vec![(MaterialName::SanctuaryFang, 1)] } else { Vec::new() };
            handicrafts.push(craft_of(*name, 5 + dice.roll(22) as usize, 1 + dice.roll(500) as usize, category, materials));
        }
        let fangs = dice.roll(2) as usize;
        let makeable: Vec<Handicraft> = handicrafts
            .iter()
            .filter(|handicraft| fangs > 0 || handicraft.materials.is_empty())
            .cloned()
            .collect();
        for policy in [RepetitionPolicy::ForbidPrevious, RepetitionPolicy::ForbidUsed] {
            let ranked = plan(&handicrafts, vec![stock(MaterialName::SanctuaryFang, fangs)], policy);
            assert_eq!(paths(&ranked), agendas_by_hand(&makeable, policy));
            for pair in ranked.windows(2) {
                assert!(pair[0].total_value >= pair[1].total_value);
            }
            for agenda in &ranked {
                let mut total = 0;
                for (position, name) in agenda.handicrafts.iter().enumerate() {
                    let value = handicrafts.iter().find(|handicraft| handicraft.name == *name).unwrap().value;
                    let step = if position == 0 { value } else { 2 * value };
                    assert_eq!(agenda.values[position], step);
                    total += step;
                }
                assert_eq!(agenda.total_value, total);
            }
        }
    }
}
