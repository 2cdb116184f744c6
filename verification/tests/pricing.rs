use mji_agenda::{
    calc_abs_pricing, calc_agenda, HandicraftMap, HandicraftName, HandicraftPricingInfo, PopSupply, Popularity,
    PricingCache, Supply,
};

const CHAIR: HandicraftName = HandicraftName::IsleworksWoodenChair;
const TABLE: HandicraftName = HandicraftName::IsleworksBrickCounter;

fn info(value: usize) -> HandicraftPricingInfo {
    HandicraftPricingInfo { time: 4, quantity: 1, value }
}

fn state(popularity: Popularity, supply: Supply) -> PopSupply {
    PopSupply { popularity, supply }
}

fn tables() -> (HandicraftMap<PopSupply>, HandicraftMap<HandicraftPricingInfo>) {
    let mut market = HandicraftMap::new();
    let mut pricing = HandicraftMap::new();
    for (name, value) in [(CHAIR, 100), (TABLE, 200)] {
        market.insert(name, state(Popularity::Average, Supply::Sufficient));
        pricing.insert(name, info(value));
    }
    (market, pricing)
}

#[test]
fn popularity_multipliers_in_tenths() {
    assert_eq!(Popularity::Low.multiplier(), 8);
    assert_eq!(Popularity::Average.multiplier(), 10);
    assert_eq!(Popularity::High.multiplier(), 12);
    assert_eq!(Popularity::VeryHigh.multiplier(), 14);
}

#[test]
fn supply_multipliers_in_tenths() {
    assert_eq!(Supply::Nonexistent.multiplier(), 16);
    assert_eq!(Supply::Insufficient.multiplier(), 13);
    assert_eq!(Supply::Sufficient.multiplier(), 10);
    assert_eq!(Supply::Surplus.multiplier(), 8);
    assert_eq!(Supply::Overflowing.multiplier(), 6);
}

#[test]
fn plain_market_keeps_the_base_value() {
    assert_eq!(calc_abs_pricing(false, state(Popularity::Average, Supply::Sufficient), info(100)), 100);
}

#[test]
fn bonus_doubles_the_price() {
    assert_eq!(calc_abs_pricing(true, state(Popularity::Average, Supply::Sufficient), info(100)), 200);
    assert_eq!(calc_abs_pricing(true, state(Popularity::High, Supply::Insufficient), info(33)), 102);
}

#[test]
fn price_is_rounded_down_before_the_bonus() {
    // 1.2 * 1.3 * 33 = 51.48
    assert_eq!(calc_abs_pricing(false, state(Popularity::High, Supply::Insufficient), info(33)), 51);
    // 0.8 * 0.6 * 7 = 3.36
    assert_eq!(calc_abs_pricing(false, state(Popularity::Low, Supply::Overflowing), info(7)), 3);
    assert_eq!(calc_abs_pricing(true, state(Popularity::Low, Supply::Overflowing), info(7)), 6);
}

#[test]
fn price_is_exact_where_the_product_is_whole() {
    // 1.4 * 1.6 * 25 = 56
    assert_eq!(calc_abs_pricing(false, state(Popularity::VeryHigh, Supply::Nonexistent), info(25)), 56);
    assert_eq!(calc_abs_pricing(true, state(Popularity::VeryHigh, Supply::Nonexistent), info(25)), 112);
}

#[test]
fn every_market_state_has_its_price() {
    let popularities = [(Popularity::Low, 8), (Popularity::Average, 10), (Popularity::High, 12), (Popularity::VeryHigh, 14)];
    let supplies = [
        (Supply::Nonexistent, 16),
        (Supply::Insufficient, 13),
        (Supply::Sufficient, 10),
        (Supply::Surplus, 8),
        (Supply::Overflowing, 6),
    ];
    for (popularity, by_popularity) in popularities {
        for (supply, by_supply) in supplies {
            for value in [0usize, 1, 2, 3, 99, 100, 101, 12345] {
                let plain = by_popularity * by_supply * value / 100;
                assert_eq!(calc_abs_pricing(false, state(popularity, supply), info(value)), plain);
                assert_eq!(calc_abs_pricing(true, state(popularity, supply), info(value)), 2 * plain);
            }
        }
    }
}

#[test]
fn small_values_can_be_worth_nothing() {
    assert_eq!(calc_abs_pricing(true, state(Popularity::Low, Supply::Overflowing), info(2)), 0);
    assert_eq!(calc_abs_pricing(true, state(Popularity::Low, Supply::Overflowing), info(3)), 2);
}

#[test]
fn price_ignores_time_and_quantity() {
    let market = state(Popularity::High, Supply::Surplus);
    let one = HandicraftPricingInfo { time: 4, quantity: 1, value: 250 };
    let other = HandicraftPricingInfo { time: 8, quantity: 3, value: 250 };
    assert_eq!(calc_abs_pricing(false, market, one), 240);
    assert_eq!(calc_abs_pricing(false, market, other), 240);
}

#[test]
fn remembered_price_is_the_computed_price() {
    let mut cache = PricingCache::new();
    let market = state(Popularity::VeryHigh, Supply::Insufficient);
    let first = cache.calc_abs_pricing(true, market, info(77));
    let second = cache.calc_abs_pricing(true, market, info(77));
    assert_eq!(first, calc_abs_pricing(true, market, info(77)));
    assert_eq!(first, 280);
    assert_eq!(second, first);
}

#[test]
fn cache_keeps_prices_apart() {
    let mut cache = PricingCache::new();
    let market = state(Popularity::Average, Supply::Sufficient);
    assert_eq!(cache.calc_abs_pricing(false, market, info(10)), 10);
    assert_eq!(cache.calc_abs_pricing(true, market, info(10)), 20);
    assert_eq!(cache.calc_abs_pricing(false, state(Popularity::High, Supply::Sufficient), info(10)), 12);
    assert_eq!(cache.calc_abs_pricing(false, market, info(20)), 20);
    assert_eq!(cache.calc_abs_pricing(false, market, info(10)), 10);
    assert_eq!(cache.calc_abs_pricing(true, market, info(10)), 20);
}

#[test]
fn single_steps_are_worth_their_plain_price() {
    let (market, pricing) = tables();
    let mut cache = PricingCache::new();
    let chair = calc_agenda(vec![CHAIR], &market, &pricing, &mut cache);
    assert_eq!(chair.handicrafts, vec![CHAIR]);
    assert_eq!(chair.values, vec![100]);
    assert_eq!(chair.total_value, 100);
    let table = calc_agenda(vec![TABLE], &market, &pricing, &mut cache);
    assert_eq!(table.values, vec![200]);
    assert_eq!(table.total_value, 200);
}

#[test]
fn later_steps_earn_the_bonus() {
    let (market, pricing) = tables();
    let mut cache = PricingCache::new();
    let first = calc_agenda(vec![CHAIR, TABLE], &market, &pricing, &mut cache);
    assert_eq!(first.values, vec![100, 400]);
    assert_eq!(first.total_value, 500);
    let second = calc_agenda(vec![TABLE, CHAIR], &market, &pricing, &mut cache);
    assert_eq!(second.values, vec![200, 200]);
    assert_eq!(second.total_value, 400);
}

#[test]
fn appended_step_adds_its_price_with_bonus() {
    let (market, pricing) = tables();
    let mut cache = PricingCache::new();
    let shorter = calc_agenda(vec![CHAIR, TABLE], &market, &pricing, &mut cache);
    let longer = calc_agenda(vec![CHAIR, TABLE, CHAIR], &market, &pricing, &mut cache);
    let step = calc_abs_pricing(true, *market.get(CHAIR).unwrap(), *pricing.get(CHAIR).unwrap());
    assert_eq!(step, 200);
    assert_eq!(longer.total_value, shorter.total_value + step);
    assert_eq!(longer.values[..2], shorter.values[..]);
}

#[test]
fn empty_sequence_is_worth_nothing() {
    let (market, pricing) = tables();
    let mut cache = PricingCache::new();
    let nothing = calc_agenda(Vec::new(), &market, &pricing, &mut cache);
    assert!(nothing.handicrafts.is_empty());
    assert!(nothing.values.is_empty());
    assert_eq!(nothing.total_value, 0);
}
