use vstd::prelude::*;
use crate::codec::{decode_table, encode_table, table_decoding, table_encoding};
use crate::error::Error;
use crate::table::{WeightedEntry, WeightedTable};

verus! {

/// The name of the one cache slot that the table is kept under.
pub fn cache_key() -> (key: &'static str)
    ensures
        key@ == "city-pop-pair"@,
{
    "city-pop-pair"
}

/// What a read of the cache slot means, where `slot` is what the store gave
/// for the key: nothing where the slot is empty, its bytes otherwise.
///
/// An empty slot is a miss. A slot that holds a table is a hit with that
/// table. Fails with `CacheStore` exactly where the slot holds bytes that are
/// no table. Bytes that `put` gave for a table are a hit with that table.
pub fn get(slot: Option<&[u8]>) -> (r: Result<Option<WeightedTable>, Error>)
    ensures
        match slot {
            None => r matches Ok(None),
            Some(bytes) => match table_decoding(bytes@) {
                Some(entries) => r matches Ok(Some(t)) && t@ == entries,
                None => r matches Err(Error::CacheStore),
            },
        },
        forall|entries: Seq<WeightedEntry>|
            slot is Some && slot->Some_0@ == #[trigger] table_encoding(entries) ==> r is Ok
                && r->Ok_0 is Some && r->Ok_0->Some_0@ == entries,
{
    match slot {
        None => Ok(None),
        Some(bytes) => match decode_table(bytes) {
            Ok(table) => Ok(Some(table)),
            Err(error) => Err(error),
        },
    }
}

/// The bytes to write to the cache slot for `table`. Whatever the slot held
/// before is replaced as a whole. Every table can be put; only the store may
/// fail to take the bytes, which the host reports.
pub fn put(table: &WeightedTable) -> (bytes: Vec<u8>)
    ensures
        bytes@ == table_encoding(table@),
{
    encode_table(table)
}

} // verus!
