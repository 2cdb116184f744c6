use mji_agenda::generator::copy_names;
use mji_agenda::search::{contains_name, permits, successors};
use mji_agenda::{
    create_handicraft_graph, generate_agendas, pricing_index, AgendaGeneratorResult, CategoryName, Handicraft,
    HandicraftName, RepetitionPolicy, MIN_PRODUCT_TIME, TIME_IN_CYCLE,
};

const POTION: HandicraftName = HandicraftName::IsleworksPotion;
const ROPE: HandicraftName = HandicraftName::IsleworksRope;
const BED: HandicraftName = HandicraftName::IsleworksBed;
const HORN: HandicraftName = HandicraftName::IsleworksHorn;

fn craft(name: HandicraftName, time: usize, category: Vec<CategoryName>) -> Handicraft {
    Handicraft { name, time, quantity: 1, value: 10, category, materials: Vec::new() }
}

fn leaves(found: AgendaGeneratorResult) -> Vec<Vec<HandicraftName>> {
    let mut walker = found.into_iter();
    let mut all = Vec::new();
    while let Some(leaf) = walker.next() {
        all.push(leaf);
    }
    assert_eq!(walker.next(), None);
    all
}

#[test]
fn cycle_has_twenty_four_hours() {
    assert_eq!(TIME_IN_CYCLE, 24);
    assert_eq!(MIN_PRODUCT_TIME, 4);
}

#[test]
fn walker_hands_out_a_single_tail() {
    assert_eq!(leaves(AgendaGeneratorResult::Tail(vec![POTION, ROPE])), vec![vec![POTION, ROPE]]);
}

#[test]
fn walker_hands_out_nothing_of_an_empty_branch() {
    assert!(leaves(AgendaGeneratorResult::Intermediate(Vec::new())).is_empty());
}

#[test]
fn walker_goes_through_the_last_branch_first() {
    let found = AgendaGeneratorResult::Intermediate(vec![
        AgendaGeneratorResult::Tail(vec![POTION]),
        AgendaGeneratorResult::Intermediate(vec![
            AgendaGeneratorResult::Tail(vec![ROPE]),
            AgendaGeneratorResult::Intermediate(Vec::new()),
            AgendaGeneratorResult::Tail(vec![BED]),
        ]),
        AgendaGeneratorResult::Tail(vec![HORN]),
    ]);
    assert_eq!(leaves(found), vec![vec![HORN], vec![BED], vec![ROPE], vec![POTION]]);
}

#[test]
fn policy_on_the_previous_craft() {
    let agenda = vec![POTION, ROPE];
    assert!(!permits(RepetitionPolicy::ForbidPrevious, &agenda, ROPE));
    assert!(permits(RepetitionPolicy::ForbidPrevious, &agenda, POTION));
    assert!(permits(RepetitionPolicy::ForbidPrevious, &agenda, BED));
    assert!(permits(RepetitionPolicy::ForbidPrevious, &Vec::new(), BED));
}

#[test]
fn policy_on_used_crafts() {
    let agenda = vec![POTION, ROPE];
    assert!(!permits(RepetitionPolicy::ForbidUsed, &agenda, ROPE));
    assert!(!permits(RepetitionPolicy::ForbidUsed, &agenda, POTION));
    assert!(permits(RepetitionPolicy::ForbidUsed, &agenda, BED));
    assert!(permits(RepetitionPolicy::ForbidUsed, &Vec::new(), BED));
}

#[test]
fn names_are_found_and_copied() {
    let names = vec![POTION, ROPE];
    assert!(contains_name(&names, ROPE));
    assert!(!contains_name(&names, BED));
    assert_eq!(copy_names(&names), names);
    assert!(copy_names(&Vec::new()).is_empty());
}

#[test]
fn successors_share_a_category_and_fit_the_cycle() {
    let handicrafts = vec![
        craft(POTION, 4, vec![CategoryName::Concoctions, CategoryName::Sundries]),
        craft(ROPE, 4, vec![CategoryName::Sundries]),
        craft(BED, 8, vec![CategoryName::Concoctions, CategoryName::Sundries]),
        craft(HORN, 4, vec![CategoryName::Arms]),
    ];
    let (_, graph) = create_handicraft_graph(&handicrafts);
    let pricing = pricing_index(&handicrafts);
    let mut next = successors(&graph, &pricing, RepetitionPolicy::ForbidPrevious, &vec![POTION], 4);
    next.sort();
    assert_eq!(next, vec![POTION, ROPE, BED].into_iter().filter(|name| *name != POTION).collect::<Vec<_>>());
    let mut late = successors(&graph, &pricing, RepetitionPolicy::ForbidPrevious, &vec![BED, POTION, BED], 20);
    late.sort();
    assert_eq!(late, vec![POTION, ROPE]);
    let used = successors(&graph, &pricing, RepetitionPolicy::ForbidUsed, &vec![BED, POTION, BED], 20);
    assert_eq!(used, vec![ROPE]);
    assert!(successors(&graph, &pricing, RepetitionPolicy::ForbidPrevious, &vec![HORN], 4).is_empty());
}

#[test]
fn search_below_a_start_gives_its_agendas() {
    let handicrafts = vec![
        craft(POTION, 12, vec![CategoryName::Concoctions]),
        craft(ROPE, 12, vec![CategoryName::Concoctions]),
        craft(BED, 10, vec![CategoryName::Concoctions]),
    ];
    let (_, graph) = create_handicraft_graph(&handicrafts);
    let pricing = pricing_index(&handicrafts);
    let found = generate_agendas(&graph, &pricing, RepetitionPolicy::ForbidPrevious, vec![POTION], 12);
    let mut all = leaves(found);
    all.sort();
    assert_eq!(all, vec![vec![POTION, ROPE], vec![POTION, BED]]);
    let found = generate_agendas(&graph, &pricing, RepetitionPolicy::ForbidUsed, vec![BED], 10);
    let mut all = leaves(found);
    all.sort();
    assert_eq!(all, vec![vec![BED, POTION], vec![BED, ROPE]]);
}

#[test]
fn search_stops_when_less_than_four_hours_are_left() {
    let handicrafts = vec![craft(POTION, 21, vec![CategoryName::Concoctions]), craft(ROPE, 3, vec![CategoryName::Concoctions])];
    let (_, graph) = create_handicraft_graph(&handicrafts);
    let pricing = pricing_index(&handicrafts);
    let found = generate_agendas(&graph, &pricing, RepetitionPolicy::ForbidPrevious, vec![POTION], 21);
    assert_eq!(leaves(found), vec![vec![POTION]]);
}

#[test]
fn search_keeps_agendas_that_begin_alike_together() {
    let handicrafts = vec![
        craft(POTION, 8, vec![CategoryName::Concoctions]),
        craft(ROPE, 8, vec![CategoryName::Concoctions]),
        craft(BED, 8, vec![CategoryName::Concoctions]),
        craft(HORN, 8, vec![CategoryName::Concoctions]),
    ];
    let (_, graph) = create_handicraft_graph(&handicrafts);
    let pricing = pricing_index(&handicrafts);
    let all = leaves(generate_agendas(&graph, &pricing, RepetitionPolicy::ForbidUsed, vec![POTION], 8));
    assert_eq!(all.len(), 6);
    for length in 1..=3 {
        for first in 0..all.len() {
            for last in first..all.len() {
                if all[first][..length] == all[last][..length] {
                    for between in first..last {
                        assert_eq!(all[between][..length], all[first][..length]);
                    }
                }
            }
        }
    }
}
