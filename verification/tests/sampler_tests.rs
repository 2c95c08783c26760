use random_place::error::Error;
use random_place::sampler::{sample, sample_index, sample_index_seeded, sample_seeded, weights_of};
use random_place::table::{WeightedEntry, WeightedTable};

fn weighted(pairs: &[(i64, u128)]) -> WeightedTable {
    WeightedTable::from_entries(pairs.iter().map(|p| WeightedEntry { id: p.0, weight: p.1 }).collect())
}

#[test]
fn empty_table_has_no_distribution() {
    assert_eq!(sample(&weighted(&[])), Err(Error::EmptyDistribution));
    assert_eq!(sample_index(&weighted(&[])), Err(Error::EmptyDistribution));
}

#[test]
fn all_zero_table_has_no_distribution() {
    assert_eq!(sample(&weighted(&[(1, 0), (2, 0)])), Err(Error::EmptyDistribution));
    assert_eq!(sample_index(&weighted(&[(1, 0)])), Err(Error::EmptyDistribution));
}

#[test]
fn weights_beyond_the_range_overflow() {
    let t = weighted(&[(1, u128::MAX), (2, 1)]);
    assert_eq!(sample(&t), Err(Error::WeightOverflow));
    assert_eq!(sample_index(&t), Err(Error::WeightOverflow));
}

#[test]
fn weights_at_the_end_of_the_range_are_drawn() {
    let t = weighted(&[(1, u128::MAX - 1), (2, 1)]);
    let e = sample(&t).unwrap();
    assert!(e.id == 1 || e.id == 2);
}

#[test]
fn single_entry_is_always_drawn() {
    let t = weighted(&[(42, 3)]);
    for _ in 0..100 {
        assert_eq!(sample(&t), Ok(WeightedEntry { id: 42, weight: 3 }));
        assert_eq!(sample_index(&t), Ok(0));
    }
}

#[test]
fn zero_weight_entries_are_never_drawn() {
    let t = weighted(&[(1, 0), (2, 5), (3, 0), (4, 1), (5, 0)]);
    for _ in 0..2000 {
        let i = sample_index(&t).unwrap();
        assert!(i == 1 || i == 3);
        let e = sample(&t).unwrap();
        assert!(e.weight > 0);
        assert!(e.id == 2 || e.id == 4);
    }
}

#[test]
fn fresh_draws_are_entries_of_the_table() {
    let t = weighted(&[(1, 1), (2, 3)]);
    for _ in 0..10_000 {
        let e = sample(&t).unwrap();
        assert!(e == t.entries[0] || e == t.entries[1]);
        let i = sample_index(&t).unwrap();
        assert!(i < 2);
    }
}

#[test]
fn entries_of_one_id_add_up() {
    let unit: u128 = 1_000_000;
    let t = weighted(&[(1, 200 * unit), (1, 100 * unit), (2, 100 * unit), (2, 100 * unit)]);
    assert_eq!(t.mass(1), Some(300 * unit));
    assert_eq!(t.mass(2), Some(200 * unit));
    assert_eq!(t.total(), Some(500 * unit));
}

#[test]
fn weights_are_read_in_order() {
    assert_eq!(weights_of(&weighted(&[(1, 9), (2, 0), (3, 4)])), vec![9, 0, 4]);
    assert_eq!(weights_of(&weighted(&[])), Vec::<u128>::new());
}

#[test]
fn seeded_draws_repeat() {
    let t = weighted(&[(1, 5), (2, 0), (3, 7), (4, 1)]);
    for seed in 0..200 {
        let first = sample_index_seeded(&t, seed).unwrap();
        assert!(first == 0 || first == 2 || first == 3);
        assert_eq!(sample_index_seeded(&t, seed), Ok(first));
        assert_eq!(sample_seeded(&t, seed), Ok(t.entries[first]));
    }
}

#[test]
fn seeded_draws_depend_on_the_seed() {
    let t = weighted(&[(1, 1), (2, 1)]);
    let mut seen = [false, false];
    for seed in 0..64 {
        seen[sample_index_seeded(&t, seed).unwrap()] = true;
    }
    assert_eq!(seen, [true, true]);
}

#[test]
fn seeded_draws_depend_on_the_weights_alone() {
    let a = weighted(&[(1, 2), (2, 3), (3, 5)]);
    let b = weighted(&[(7, 2), (8, 3), (9, 5)]);
    for seed in 0..200 {
        assert_eq!(sample_index_seeded(&a, seed), sample_index_seeded(&b, seed));
    }
}

#[test]
fn seeded_draws_are_three_to_one() {
    let t = weighted(&[(1, 1), (2, 3)]);
    let mut a: u32 = 0;
    let mut b: u32 = 0;
    for seed in 0..100_000 {
        match sample_seeded(&t, seed).unwrap().id {
            1 => a += 1,
            2 => b += 1,
            other => panic!("id {} is not in the table", other),
        }
    }
    assert_eq!(a + b, 100_000);
    let ratio = b as f64 / a as f64;
    assert!(ratio >= 2.7 && ratio <= 3.3, "ratio {}", ratio);
}

#[test]
fn seeded_draws_follow_the_mass_of_an_id() {
    let unit: u128 = 1_000_000;
    let t = weighted(&[(1, 200 * unit), (1, 100 * unit), (2, 100 * unit), (2, 100 * unit)]);
    let mut first: u32 = 0;
    let n: u32 = 50_000;
    for seed in 0..n {
        if sample_seeded(&t, seed as u64).unwrap().id == 1 {
            first += 1;
        }
    }
    let share = first as f64 / n as f64;
    assert!(share > 0.57 && share < 0.63, "share {}", share);
}

#[test]
fn seeded_draws_fail_as_the_others_do() {
    assert_eq!(sample_seeded(&weighted(&[]), 1), Err(Error::EmptyDistribution));
    assert_eq!(sample_index_seeded(&weighted(&[(1, 0)]), 1), Err(Error::EmptyDistribution));
    assert_eq!(sample_seeded(&weighted(&[(1, u128::MAX), (2, 1)]), 1), Err(Error::WeightOverflow));
}
