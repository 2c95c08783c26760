use vstd::prelude::*;
use rand::distr::weighted::WeightedIndex;
use rand::distr::Distribution;
use rand::rngs::StdRng;
use rand::SeedableRng;
use crate::error::Error;
use crate::table::{
    has_positive_weight, lemma_total_zero, total_weight, WeightedEntry, WeightedTable,
};

verus! {

/// A distribution over the indices of a list of weights, as `rand` keeps it:
/// a `rand::distr::weighted::WeightedIndex` over 128-bit weights. Nothing is
/// known of what it holds but through `index_weights`.
#[verifier::external_body]
pub struct IndexDistribution {
    inner: WeightedIndex<u128>,
}

/// The weights that a distribution was made of, in the order in which they were given.
pub uninterp spec fn index_weights(d: IndexDistribution) -> Seq<u128>;

/// Why a list of weights is no distribution.
enum WeightsRejected {
    /// The list is empty.
    Empty,
    /// A weight is not a valid number.
    Invalid,
    /// All weights are zero.
    AllZero,
    /// The weights add up to more than a weight can hold.
    Overflow,
}

/// The sum of a list of weights.
pub open spec fn weights_sum(weights: Seq<u128>) -> nat
    decreases weights.len(),
{
    if weights.len() == 0 {
        0
    } else {
        weights_sum(weights.drop_last()) + weights.last() as nat
    }
}

/// The weights of a table, entry by entry.
pub open spec fn entry_weights(entries: Seq<WeightedEntry>) -> Seq<u128> {
    Seq::new(entries.len(), |i: int| entries[i].weight)
}

/// Makes a distribution through `rand::distr::weighted::WeightedIndex::new`.
///
/// As that function does, it refuses an empty list, a list whose sum does not
/// fit, and a list of zeros, in this order of precedence; any other list of
/// unsigned weights gives a distribution over exactly these weights.
#[verifier::external_body]
fn new_index(weights: &Vec<u128>) -> (r: Result<IndexDistribution, WeightsRejected>)
    ensures
        weights@.len() == 0 ==> (r matches Err(WeightsRejected::Empty)),
        0 < weights@.len() && u128::MAX < weights_sum(weights@) ==> (r matches Err(
            WeightsRejected::Overflow
        )),
        0 < weights@.len() && weights_sum(weights@) == 0 ==> (r matches Err(
            WeightsRejected::AllZero
        )),
        0 < weights@.len() && 0 < weights_sum(weights@) <= u128::MAX ==> r is Ok,
        r matches Ok(d) ==> index_weights(d) == weights@,
{
    WeightedIndex::new(weights).map(|inner| IndexDistribution { inner }).map_err(
        |e| match e {
            rand::distr::weighted::Error::InvalidInput => WeightsRejected::Empty,
            rand::distr::weighted::Error::InsufficientNonZero => WeightsRejected::AllZero,
            rand::distr::weighted::Error::Overflow => WeightsRejected::Overflow,
            _ => WeightsRejected::Invalid,
        },
    )
}

/// Draws an index through `WeightedIndex::sample`, with the generator that
/// `rand::rng` hands to the calling thread.
///
/// Which index comes back is left open. Whatever comes back is an index into
/// the weights that the distribution was made of, and its weight is not zero.
#[verifier::external_body]
fn draw(d: &IndexDistribution) -> (i: usize)
    ensures
        i < index_weights(*d).len(),
        index_weights(*d)[i as int] > 0,
{
    d.inner.sample(&mut rand::rng())
}

/// The index that a generator seeded with `seed` draws first from the
/// distribution over `weights`.
pub uninterp spec fn seeded_index(weights: Seq<u128>, seed: u64) -> int;

/// Draws an index through `WeightedIndex::sample`, with a fresh
/// `rand::rngs::StdRng` that `SeedableRng::seed_from_u64` makes of `seed`.
///
/// The index depends on the weights and the seed alone, for the generator
/// as this version of `rand` has it. As with every draw,
/// it is an index into the weights that the distribution was made of, and its
/// weight is not zero.
#[verifier::external_body]
fn draw_seeded(d: &IndexDistribution, seed: u64) -> (i: usize)
    ensures
        i == seeded_index(index_weights(*d), seed),
        i < index_weights(*d).len(),
        index_weights(*d)[i as int] > 0,
{
    d.inner.sample(&mut StdRng::seed_from_u64(seed))
}

proof fn lemma_weights_sum(entries: Seq<WeightedEntry>)
    ensures
        weights_sum(entry_weights(entries)) == total_weight(entries),
    decreases entries.len(),
{
    if entries.len() > 0 {
        assert(entry_weights(entries).drop_last() == entry_weights(entries.drop_last()));
        lemma_weights_sum(entries.drop_last());
    }
}

/// The weights of `table`, entry by entry.
pub fn weights_of(table: &WeightedTable) -> (weights: Vec<u128>)
    ensures
        weights@ == entry_weights(table@),
{
    let mut weights: Vec<u128> = Vec::new();
    let mut i: usize = 0;
    while i < table.entries.len()
        invariant
            i <= table.entries.len(),
            weights@ == entry_weights(table@.take(i as int)),
        decreases table.entries.len() - i,
    {
        weights.push(table.entries[i].weight);
        i = i + 1;
        assert(weights@ == entry_weights(table@.take(i as int)));
    }
    proof {
        assert(table@.take(i as int) == table@);
    }
    weights
}

/// What can be said of an index drawn from `entries`, whichever it is: it is
/// the index of an entry, and the weight of that entry is positive.
pub open spec fn drawable(entries: Seq<WeightedEntry>, index: int) -> bool {
    0 <= index < entries.len() && entries[index].weight > 0
}

/// Why nothing can be drawn from `entries`, where nothing can: no entry has a
/// positive weight (an empty table has none), or some entry has one but the
/// weights do not add up within a weight's range.
pub open spec fn undrawable(entries: Seq<WeightedEntry>) -> Option<Error> {
    if !has_positive_weight(entries) {
        Some(Error::EmptyDistribution)
    } else if total_weight(entries) > u128::MAX {
        Some(Error::WeightOverflow)
    } else {
        None
    }
}

fn distribution_of(table: &WeightedTable) -> (r: Result<IndexDistribution, Error>)
    ensures
        match undrawable(table@) {
            Some(error) => r matches Err(e) && e == error,
            None => r matches Ok(d) && index_weights(d) == entry_weights(table@),
        },
{
    let weights = weights_of(table);
    proof {
        lemma_weights_sum(table@);
        lemma_total_zero(table@);
    }
    match new_index(&weights) {
        Ok(d) => Ok(d),
        Err(WeightsRejected::Overflow) => Err(Error::WeightOverflow),
        Err(_) => Err(Error::EmptyDistribution),
    }
}

/// Draws the index of one entry, each with a chance proportional to its
/// weight, with randomness that is fresh on every call.
///
/// Fails with `EmptyDistribution` exactly when no entry has a positive
/// weight, and with `WeightOverflow` exactly when some entry has one but the
/// weights do not add up within a weight's range. In every other case an
/// index is returned, and it is the index of an entry whose weight is
/// positive.
pub fn sample_index(table: &WeightedTable) -> (r: Result<usize, Error>)
    ensures
        match undrawable(table@) {
            Some(error) => r matches Err(e) && e == error,
            None => r matches Ok(i) && drawable(table@, i as int),
        },
{
    match distribution_of(table) {
        Ok(d) => {
            let i: usize = draw(&d);
            Ok(i)
        },
        Err(e) => Err(e),
    }
}

/// Draws the index of one entry as `sample_index` does, with randomness that
/// is made of `seed`: the same table and the same seed give the same index.
pub fn sample_index_seeded(table: &WeightedTable, seed: u64) -> (r: Result<usize, Error>)
    ensures
        match undrawable(table@) {
            Some(error) => r matches Err(e) && e == error,
            None => r matches Ok(i) && drawable(table@, i as int) && i == seeded_index(
                entry_weights(table@),
                seed,
            ),
        },
{
    match distribution_of(table) {
        Ok(d) => {
            let i: usize = draw_seeded(&d, seed);
            Ok(i)
        },
        Err(e) => Err(e),
    }
}

/// Draws one entry, each with a chance proportional to its weight, with
/// randomness that is fresh on every call.
///
/// Fails as `sample_index` does. The entry returned is an entry of the table
/// and has a positive weight.
pub fn sample(table: &WeightedTable) -> (r: Result<WeightedEntry, Error>)
    ensures
        match undrawable(table@) {
            Some(error) => r matches Err(e) && e == error,
            None => r matches Ok(e) && exists|i: int| drawable(table@, i) && table@[i] == e,
        },
{
    match sample_index(table) {
        Ok(i) => Ok(table.entries[i]),
        Err(e) => Err(e),
    }
}

/// Draws one entry as `sample` does, with randomness that is made of `seed`:
/// the same table and the same seed give the same entry.
pub fn sample_seeded(table: &WeightedTable, seed: u64) -> (r: Result<WeightedEntry, Error>)
    ensures
        match undrawable(table@) {
            Some(error) => r matches Err(e) && e == error,
            None => r matches Ok(e) && drawable(table@, seeded_index(entry_weights(table@), seed))
                && e == table@[seeded_index(entry_weights(table@), seed)],
        },
{
    match sample_index_seeded(table, seed) {
        Ok(i) => Ok(table.entries[i]),
        Err(e) => Err(e),
    }
}

} // verus!
