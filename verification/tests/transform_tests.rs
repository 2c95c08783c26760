use random_place::config::{Multiplier, WeightConfig, WeightRule, MULTIPLIER_SCALE};
use random_place::error::Error;
use random_place::table::{WeightedEntry, WeightedTable};
use random_place::transform::{transform, CandidateRow};

fn row(id: i64, population: u64, country: &str, city: &str) -> CandidateRow {
    CandidateRow { id, population, country: country.to_string(), city_name: city.to_string() }
}

fn rule(key: &str, millionths: u64) -> WeightRule {
    WeightRule { key: key.to_string(), multiplier: Multiplier { millionths } }
}

fn entry(id: i64, weight: u128) -> WeightedEntry {
    WeightedEntry { id, weight }
}

const UNIT: u128 = MULTIPLIER_SCALE as u128;

#[test]
fn row_matching_both_rules_gives_two_entries() {
    let cfg = WeightConfig {
        base_population: 100,
        country_weights: Some(vec![rule("FR", 1_500_000), rule("US", 2_000_000)]),
        city_weights: Some(vec![rule("Austin", 3_000_000)]),
    };
    let table = transform(&vec![row(7, 100, "US", "Austin")], &cfg).unwrap();
    assert_eq!(table.entries, vec![entry(7, 200 * UNIT), entry(7, 300 * UNIT)]);
}

#[test]
fn row_matching_neither_rule_with_one_axis_absent_gives_its_population() {
    let cfg = WeightConfig {
        base_population: 100,
        country_weights: Some(vec![rule("US", 2_000_000)]),
        city_weights: None,
    };
    let table = transform(&vec![row(2, 100, "FR", "Y")], &cfg).unwrap();
    assert_eq!(table.entries, vec![entry(2, 100 * UNIT)]);
}

#[test]
fn row_matching_neither_rule_with_both_axes_present_gives_nothing() {
    let cfg = WeightConfig {
        base_population: 100,
        country_weights: Some(vec![rule("US", 2_000_000)]),
        city_weights: Some(vec![]),
    };
    let table = transform(&vec![row(2, 100, "FR", "Y")], &cfg).unwrap();
    assert_eq!(table.entries, vec![]);
}

#[test]
fn row_with_both_axes_absent_gives_its_population_twice() {
    let cfg = WeightConfig::unweighted(100);
    let table = transform(&vec![row(2, 100, "FR", "Y")], &cfg).unwrap();
    assert_eq!(table.entries, vec![entry(2, 100 * UNIT), entry(2, 100 * UNIT)]);
}

#[test]
fn present_axes_contribute_matches_only() {
    let cfg = WeightConfig {
        base_population: 100,
        country_weights: Some(vec![rule("US", 2_000_000)]),
        city_weights: Some(vec![]),
    };
    let rows = vec![row(1, 100, "US", "X"), row(2, 100, "FR", "Y")];
    let table = transform(&rows, &cfg).unwrap();
    assert_eq!(table.entries, vec![entry(1, 200 * UNIT)]);
    assert_eq!(table.mass(1), Some(200 * UNIT));
    assert_eq!(table.mass(2), Some(0));
}

#[test]
fn absent_city_axis_falls_back_for_every_row() {
    let cfg = WeightConfig {
        base_population: 100,
        country_weights: Some(vec![rule("US", 2_000_000)]),
        city_weights: None,
    };
    let rows = vec![row(1, 100, "US", "X"), row(2, 100, "FR", "Y")];
    let table = transform(&rows, &cfg).unwrap();
    assert_eq!(
        table.entries,
        vec![entry(1, 200 * UNIT), entry(1, 100 * UNIT), entry(2, 100 * UNIT)]
    );
    assert_eq!(table.mass(1), Some(300 * UNIT));
    assert_eq!(table.mass(2), Some(100 * UNIT));
    assert_eq!(table.total(), Some(400 * UNIT));
}

#[test]
fn entries_follow_the_order_of_rows_then_axes() {
    let cfg = WeightConfig {
        base_population: 0,
        country_weights: Some(vec![rule("A", 500_000), rule("B", 250_000)]),
        city_weights: Some(vec![rule("c", 4_000_000)]),
    };
    let rows = vec![row(10, 8, "B", "c"), row(11, 8, "A", "d"), row(12, 8, "Z", "c")];
    let table = transform(&rows, &cfg).unwrap();
    assert_eq!(
        table.entries,
        vec![entry(10, 2 * UNIT), entry(10, 32 * UNIT), entry(11, 4 * UNIT), entry(12, 32 * UNIT)]
    );
}

#[test]
fn fractional_multiplier_is_exact() {
    let cfg = WeightConfig {
        base_population: 0,
        country_weights: Some(vec![rule("US", 1)]),
        city_weights: Some(vec![]),
    };
    let table = transform(&vec![row(1, 3, "US", "X")], &cfg).unwrap();
    assert_eq!(table.entries, vec![entry(1, 3)]);
}

#[test]
fn zero_population_gives_zero_weight() {
    let cfg = WeightConfig {
        base_population: 0,
        country_weights: Some(vec![rule("US", 2_000_000)]),
        city_weights: None,
    };
    let table = transform(&vec![row(1, 0, "US", "X")], &cfg).unwrap();
    assert_eq!(table.entries, vec![entry(1, 0), entry(1, 0)]);
}

#[test]
fn largest_population_and_multiplier_fit() {
    let cfg = WeightConfig {
        base_population: 0,
        country_weights: Some(vec![rule("US", u64::MAX)]),
        city_weights: Some(vec![]),
    };
    let table = transform(&vec![row(1, u64::MAX, "US", "X")], &cfg).unwrap();
    assert_eq!(table.entries, vec![entry(1, (u64::MAX as u128) * (u64::MAX as u128))]);
}

#[test]
fn no_rows_give_an_empty_table() {
    let table = transform(&vec![], &WeightConfig::unweighted(1)).unwrap();
    assert_eq!(table, WeightedTable::new());
    assert!(table.is_empty());
}

#[test]
fn zero_multiplier_is_rejected() {
    let cfg = WeightConfig {
        base_population: 100,
        country_weights: Some(vec![rule("US", 0)]),
        city_weights: None,
    };
    assert!(!cfg.is_valid());
    assert_eq!(transform(&vec![row(1, 100, "FR", "X")], &cfg), Err(Error::ConfigParse));
}

#[test]
fn repeated_key_is_rejected() {
    let cfg = WeightConfig {
        base_population: 100,
        country_weights: None,
        city_weights: Some(vec![rule("X", 1_000_000), rule("Y", 1_000_000), rule("X", 2_000_000)]),
    };
    assert!(!cfg.is_valid());
    assert_eq!(transform(&vec![], &cfg), Err(Error::ConfigParse));
}

#[test]
fn positive_multipliers_and_populations_give_positive_weights() {
    let cfg = WeightConfig {
        base_population: 1,
        country_weights: Some(vec![rule("US", 1), rule("FR", 7_250_000)]),
        city_weights: None,
    };
    assert!(cfg.is_valid());
    let rows = vec![row(1, 1, "US", "a"), row(2, 9, "FR", "b"), row(3, 5, "DE", "c")];
    let table = transform(&rows, &cfg).unwrap();
    assert_eq!(table.len(), 5);
    for e in &table.entries {
        assert!(e.weight > 0);
    }
}

#[test]
fn table_accessors() {
    let table = WeightedTable::from_entries(vec![entry(1, 5), entry(2, 7), entry(1, 11)]);
    assert_eq!(table.len(), 3);
    assert!(!table.is_empty());
    assert_eq!(table.get(1), Some(entry(2, 7)));
    assert_eq!(table.get(3), None);
    assert_eq!(table.mass(1), Some(16));
    assert_eq!(table.mass(9), Some(0));
    assert_eq!(table.total(), Some(23));
}

#[test]
fn total_and_mass_that_do_not_fit() {
    let table = WeightedTable::from_entries(vec![entry(1, u128::MAX), entry(2, 1), entry(1, 1)]);
    assert_eq!(table.total(), None);
    assert_eq!(table.mass(1), None);
    assert_eq!(table.mass(2), Some(1));
}

#[test]
fn documents_are_made_of_valid_axes_only() {
    let cfg = WeightConfig::new(5, Some(vec![rule("US", 2_000_000)]), None).unwrap();
    assert_eq!(cfg.base_population, 5);
    assert_eq!(cfg.country_weights, Some(vec![rule("US", 2_000_000)]));
    assert_eq!(cfg.city_weights, None);
    assert_eq!(WeightConfig::new(5, Some(vec![rule("US", 0)]), None), Err(Error::ConfigParse));
    assert_eq!(
        WeightConfig::new(5, None, Some(vec![rule("a", 1), rule("a", 1)])),
        Err(Error::ConfigParse)
    );
    assert_eq!(WeightConfig::new(5, None, None), Ok(WeightConfig::unweighted(5)));
}

#[test]
fn multipliers_are_positive() {
    assert_eq!(Multiplier::from_millionths(0), None);
    assert_eq!(Multiplier::from_millionths(1), Some(Multiplier { millionths: 1 }));
    assert_eq!(Multiplier::one(), Multiplier { millionths: MULTIPLIER_SCALE });
    let cfg = WeightConfig::new(0, Some(vec![WeightRule { key: "US".to_string(), multiplier: Multiplier::one() }]), Some(vec![])).unwrap();
    let table = transform(&vec![row(1, 100, "US", "X")], &cfg).unwrap();
    assert_eq!(table.entries, vec![entry(1, 100 * UNIT)]);
}
