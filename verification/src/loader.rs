use vstd::prelude::*;
use crate::detail::{QueryResult, SqlValue};
use crate::error::Error;
use crate::transform::{row_views, CandidateRow, RowView};

verus! {

/// The candidate that a row of the candidate query writes: its first four
/// values are the id, the population, the country and the name of the city.
/// Nothing where a value is missing or of another kind, and where the
/// population is negative.
pub open spec fn row_candidate(values: Seq<SqlValue>) -> Option<RowView> {
    if values.len() < 4 {
        None
    } else {
        match (values[0], values[1], values[2], values[3]) {
            (
                SqlValue::Integer(id),
                SqlValue::Integer(population),
                SqlValue::Text(country),
                SqlValue::Text(city_name),
            ) => if population >= 0 {
                Some(
                    RowView {
                        id,
                        population: population as u64,
                        country: country@,
                        city_name: city_name@,
                    },
                )
            } else {
                None
            },
            _ => None,
        }
    }
}

/// The candidates that the rows of the candidate query write, in the order of
/// the rows, where each row writes one.
pub open spec fn result_candidates(result: QueryResult) -> Option<Seq<RowView>> {
    if forall|i: int|
        0 <= i < result.rows@.len() ==> (#[trigger] row_candidate(result.rows@[i]@)) is Some {
        Some(Seq::new(result.rows@.len(), |i: int| row_candidate(result.rows@[i]@)->0))
    } else {
        None
    }
}

/// Reads one candidate out of a row of the candidate query.
pub fn candidate_of(values: &Vec<SqlValue>) -> (r: Option<CandidateRow>)
    ensures
        match row_candidate(values@) {
            Some(row) => r matches Some(c) && c@ == row,
            None => r is None,
        },
{
    if values.len() < 4 {
        return None;
    }
    let id: i64 = match &values[0] {
        SqlValue::Integer(i) => *i,
        _ => {
            return None;
        },
    };
    let population: i64 = match &values[1] {
        SqlValue::Integer(p) => *p,
        _ => {
            return None;
        },
    };
    let country: String = match &values[2] {
        SqlValue::Text(t) => t.clone(),
        _ => {
            return None;
        },
    };
    let city_name: String = match &values[3] {
        SqlValue::Text(t) => t.clone(),
        _ => {
            return None;
        },
    };
    if population < 0 {
        return None;
    }
    Some(CandidateRow { id, population: population as u64, country, city_name })
}

/// Reads the candidates out of the rows of the candidate query.
///
/// Fails with `StoreQuery` exactly where some row writes no candidate.
pub fn candidates_of(result: &QueryResult) -> (r: Result<Vec<CandidateRow>, Error>)
    ensures
        match result_candidates(*result) {
            Some(rows) => r matches Ok(v) && row_views(v@) == rows,
            None => r matches Err(Error::StoreQuery),
        },
{
    let mut rows: Vec<CandidateRow> = Vec::new();
    let mut i: usize = 0;
    while i < result.rows.len()
        invariant
            i <= result.rows.len(),
            rows@.len() == i,
            forall|k: int|
                0 <= k < i ==> (#[trigger] row_candidate(result.rows@[k]@)) == Some(rows@[k]@),
        decreases result.rows.len() - i,
    {
        match candidate_of(&result.rows[i]) {
            Some(row) => {
                rows.push(row);
            },
            None => {
                assert(row_candidate(result.rows@[i as int]@) is None);
                return Err(Error::StoreQuery);
            },
        }
        i = i + 1;
    }
    proof {
        assert(row_views(rows@) =~= Seq::new(
            result.rows@.len(),
            |k: int| row_candidate(result.rows@[k]@)->0,
        ));
    }
    Ok(rows)
}

} // verus!
