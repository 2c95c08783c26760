use random_place::cache::{get, put};
use random_place::codec::{decode_table, encode_table};
use random_place::error::Error;
use random_place::table::{WeightedEntry, WeightedTable};

fn table_of(pairs: &[(i64, u128)]) -> WeightedTable {
    WeightedTable::from_entries(pairs.iter().map(|p| WeightedEntry { id: p.0, weight: p.1 }).collect())
}

#[test]
fn table_is_written_as_an_array_of_pairs() {
    let bytes = encode_table(&table_of(&[(1, 200_000_000), (2, 100_000_000)]));
    assert_eq!(bytes, b"[[1,200000000],[2,100000000]]".to_vec());
}

#[test]
fn empty_table_is_written_as_an_empty_array() {
    assert_eq!(encode_table(&table_of(&[])), b"[]".to_vec());
}

#[test]
fn what_was_put_is_what_is_got() {
    let stored = table_of(&[(1, 200_000_000), (1, 100_000_000), (-7, 0), (i64::MAX, u128::MAX), (i64::MIN, 1)]);
    let bytes = encode_table(&stored);
    assert_eq!(decode_table(&bytes), Ok(stored));
}

#[test]
fn empty_table_comes_back_empty() {
    let bytes = encode_table(&table_of(&[]));
    assert_eq!(decode_table(&bytes), Ok(table_of(&[])));
}

#[test]
fn spaced_text_is_read() {
    assert_eq!(decode_table(b" [ [ 3 , 4 ] ] "), Ok(table_of(&[(3, 4)])));
}

#[test]
fn bytes_that_hold_no_table_are_refused() {
    assert_eq!(decode_table(b""), Err(Error::CacheStore));
    assert_eq!(decode_table(b"not json"), Err(Error::CacheStore));
    assert_eq!(decode_table(b"[[1,2,3]]"), Err(Error::CacheStore));
    assert_eq!(decode_table(b"[[1]]"), Err(Error::CacheStore));
    assert_eq!(decode_table(b"[[1,-2]]"), Err(Error::CacheStore));
    assert_eq!(decode_table(b"[[1,2.5]]"), Err(Error::CacheStore));
    assert_eq!(decode_table(b"{\"1\": 2}"), Err(Error::CacheStore));
    assert_eq!(decode_table(b"[[1,2]] x"), Err(Error::CacheStore));
}

#[test]
fn put_then_get_gives_the_table() {
    let stored = table_of(&[(3, 7), (1, 200_000_000), (3, 0), (-1, u128::MAX)]);
    let bytes = put(&stored);
    assert_eq!(get(Some(bytes.as_slice())), Ok(Some(stored)));
}

#[test]
fn later_put_replaces_the_earlier_one() {
    let first = put(&table_of(&[(1, 1)]));
    let second = put(&table_of(&[(2, 2), (3, 3)]));
    assert_ne!(first, second);
    assert_eq!(get(Some(second.as_slice())), Ok(Some(table_of(&[(2, 2), (3, 3)]))));
}

#[test]
fn empty_slot_is_a_miss() {
    assert_eq!(get(None), Ok(None));
}

#[test]
fn slot_with_other_bytes_fails() {
    assert_eq!(get(Some(b"{}".as_slice())), Err(Error::CacheStore));
    assert_eq!(get(Some(b"".as_slice())), Err(Error::CacheStore));
}
