use vstd::prelude::*;
use crate::error::Error;
use crate::table::{WeightedEntry, WeightedTable};

verus! {

/// The JSON text that a list of `(id, weight)` pairs is written as.
pub uninterp spec fn pairs_json(pairs: Seq<(i64, u128)>) -> Seq<u8>;

/// The list of `(id, weight)` pairs that a JSON text writes, where it writes one.
pub uninterp spec fn json_pairs(bytes: Seq<u8>) -> Option<Seq<(i64, u128)>>;

/// Writes a list of pairs through `serde_json::to_vec`: an array of
/// two-element arrays.
///
/// That function reports an error only where the writer fails or where the
/// value refuses to be written. Here the writer is a vector of bytes and the
/// value a list of pairs of integers, so it reports none, and the bytes are
/// always those that it wrote.
#[verifier::external_body]
fn write_pairs(pairs: &Vec<(i64, u128)>) -> (bytes: Vec<u8>)
    ensures
        bytes@ == pairs_json(pairs@),
{
    serde_json::to_vec(pairs).unwrap_or_default()
}

/// Reads a list of pairs through `serde_json::from_slice`. The result is
/// nothing where that function reports an error.
///
/// The last clause is the one thing claimed of the two functions together:
/// what `serde_json::to_vec` wrote of a list of integer pairs,
/// `serde_json::from_slice` reads back as the same list.
#[verifier::external_body]
fn read_pairs(bytes: &[u8]) -> (r: Option<Vec<(i64, u128)>>)
    ensures
        r matches Some(pairs) ==> json_pairs(bytes@) == Some(pairs@),
        r is None ==> json_pairs(bytes@) is None,
        forall|pairs: Seq<(i64, u128)>|
            bytes@ == #[trigger] pairs_json(pairs) ==> r is Some && r->Some_0@ == pairs,
{
    serde_json::from_slice::<Vec<(i64, u128)>>(bytes).ok()
}

/// The entries of a table as pairs.
pub open spec fn entry_pairs(entries: Seq<WeightedEntry>) -> Seq<(i64, u128)> {
    Seq::new(entries.len(), |i: int| (entries[i].id, entries[i].weight))
}

/// Pairs as the entries of a table.
pub open spec fn pair_entries(pairs: Seq<(i64, u128)>) -> Seq<WeightedEntry> {
    Seq::new(pairs.len(), |i: int| WeightedEntry { id: pairs[i].0, weight: pairs[i].1 })
}

/// The bytes that a table is kept as in the cache slot.
pub open spec fn table_encoding(entries: Seq<WeightedEntry>) -> Seq<u8> {
    pairs_json(entry_pairs(entries))
}

/// The table that the bytes of a cache slot hold, where they hold one.
pub open spec fn table_decoding(bytes: Seq<u8>) -> Option<Seq<WeightedEntry>> {
    match json_pairs(bytes) {
        Some(pairs) => Some(pair_entries(pairs)),
        None => None,
    }
}

/// Going from entries to pairs and back gives the entries.
pub proof fn lemma_pairs_round_trip(entries: Seq<WeightedEntry>)
    ensures
        pair_entries(entry_pairs(entries)) == entries,
{
    assert(pair_entries(entry_pairs(entries)) =~= entries);
}

/// Writes a table as the bytes that are kept in the cache slot. Every table
/// can be written.
pub fn encode_table(table: &WeightedTable) -> (bytes: Vec<u8>)
    ensures
        bytes@ == table_encoding(table@),
{
    let mut pairs: Vec<(i64, u128)> = Vec::new();
    let mut i: usize = 0;
    while i < table.entries.len()
        invariant
            i <= table.entries.len(),
            pairs@ == entry_pairs(table@.take(i as int)),
        decreases table.entries.len() - i,
    {
        let e: WeightedEntry = table.entries[i];
        pairs.push((e.id, e.weight));
        i = i + 1;
        assert(pairs@ == entry_pairs(table@.take(i as int)));
    }
    proof {
        assert(table@.take(i as int) == table@);
    }
    write_pairs(&pairs)
}

/// Reads a table from the bytes of the cache slot.
///
/// Fails with `CacheStore` exactly where the bytes hold no table. Bytes that
/// `encode_table` gave for a table are read back as that table.
pub fn decode_table(bytes: &[u8]) -> (r: Result<WeightedTable, Error>)
    ensures
        match table_decoding(bytes@) {
            Some(entries) => r matches Ok(t) && t@ == entries,
            None => r matches Err(Error::CacheStore),
        },
        forall|entries: Seq<WeightedEntry>|
            bytes@ == #[trigger] table_encoding(entries) ==> r is Ok && r->Ok_0@ == entries,
{
    let pairs = match read_pairs(bytes) {
        Some(pairs) => pairs,
        None => {
            return Err(Error::CacheStore);
        },
    };
    let mut entries: Vec<WeightedEntry> = Vec::new();
    let mut i: usize = 0;
    while i < pairs.len()
        invariant
            i <= pairs.len(),
            entries@ == pair_entries(pairs@.take(i as int)),
        decreases pairs.len() - i,
    {
        let p: (i64, u128) = pairs[i];
        entries.push(WeightedEntry { id: p.0, weight: p.1 });
        i = i + 1;
        assert(entries@ == pair_entries(pairs@.take(i as int)));
    }
    proof {
        assert(pairs@.take(i as int) == pairs@);
        assert forall|es: Seq<WeightedEntry>| bytes@ == #[trigger] table_encoding(es) implies entries@
            == es by {
            assert(bytes@ == pairs_json(entry_pairs(es)));
            lemma_pairs_round_trip(es);
        }
    }
    Ok(WeightedTable { entries })
}

} // verus!
