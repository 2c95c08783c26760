use vstd::prelude::*;
use serde_json::Value;
use crate::error::Error;

verus! {

/// One value of a row of the backing store.
#[derive(Clone, Debug, PartialEq, Eq)]
pub enum SqlValue {
    Integer(i64),
    /// A real number, by the text that JSON writes it with.
    Real(String),
    Text(String),
    Blob(Vec<u8>),
    Null,
}

/// The rows that a query gave, and the names of their columns.
#[derive(Clone, Debug, PartialEq, Eq)]
pub struct QueryResult {
    pub columns: Vec<String>,
    pub rows: Vec<Vec<SqlValue>>,
}

/// The full row of one place, as the lookup by id gave it.
pub type LocationDetail = QueryResult;

/// One value of a JSON object that stands for a row.
#[derive(Clone, Debug, PartialEq, Eq)]
pub enum JsonCell {
    Null,
    Integer(i64),
    /// A number, by the text that JSON writes it with.
    Real(String),
    Text(String),
}

/// A value of a JSON object as a plain value.
pub ghost enum CellView {
    Null,
    Integer(i64),
    Real(Seq<char>),
    Text(Seq<char>),
}

impl View for JsonCell {
    type V = CellView;

    open spec fn view(&self) -> CellView {
        match self {
            JsonCell::Null => CellView::Null,
            JsonCell::Integer(i) => CellView::Integer(*i),
            JsonCell::Real(t) => CellView::Real(t@),
            JsonCell::Text(t) => CellView::Text(t@),
        }
    }
}

/// How a value of the backing store is written in JSON: numbers and texts as
/// they are, a blob and a null as `null`.
pub open spec fn sql_cell(value: SqlValue) -> CellView {
    match value {
        SqlValue::Integer(i) => CellView::Integer(i),
        SqlValue::Real(t) => CellView::Real(t@),
        SqlValue::Text(t) => CellView::Text(t@),
        SqlValue::Blob(_) => CellView::Null,
        SqlValue::Null => CellView::Null,
    }
}

/// The members of the object that stands for a row: each value under the
/// name of its column, as far as both columns and values go.
pub open spec fn row_members(columns: Seq<String>, values: Seq<SqlValue>) -> Seq<
    (Seq<char>, CellView),
> {
    Seq::new(
        if columns.len() <= values.len() {
            columns.len()
        } else {
            values.len()
        },
        |i: int| (columns[i]@, sql_cell(values[i])),
    )
}

/// The objects that stand for the rows of a result, in the order of the rows.
pub open spec fn result_members(result: QueryResult) -> Seq<Seq<(Seq<char>, CellView)>> {
    Seq::new(result.rows@.len(), |i: int| row_members(result.columns@, result.rows@[i]@))
}

/// The members of a list of objects, each by its view.
pub open spec fn member_views(rows: Seq<Vec<(String, JsonCell)>>) -> Seq<
    Seq<(Seq<char>, CellView)>,
> {
    Seq::new(rows.len(), |i: int| Seq::new(rows[i]@.len(), |j: int| (rows[i]@[j].0@, rows[i]@[j].1@)))
}

/// The text of a JSON array of objects, laid out over several lines, as
/// `serde_json` writes it. Each object is given by its members in the order
/// in which they were set.
pub uninterp spec fn pretty_json(rows: Seq<Seq<(Seq<char>, CellView)>>) -> Seq<char>;

/// Writes an array of objects through `serde_json::to_string_pretty`.
///
/// Each object is made of its members in their order, so that of two members
/// under one name the later one stays. A number whose text `serde_json` does
/// not read becomes `null`. For an array of such objects `to_string_pretty`
/// reports no error; the text would be empty if it did.
#[verifier::external_body]
fn write_pretty(rows: &Vec<Vec<(String, JsonCell)>>) -> (text: String)
    ensures
        text@ == pretty_json(member_views(rows@)),
{
    let value = |c: &JsonCell| match c {
        JsonCell::Null => Value::Null,
        JsonCell::Integer(i) => Value::from(*i),
        JsonCell::Real(t) => t.parse().map_or(Value::Null, Value::Number),
        JsonCell::Text(t) => Value::from(t.as_str()),
    };
    let object = |r: &Vec<(String, JsonCell)>| {
        Value::Object(r.iter().map(|(k, c)| (k.clone(), value(c))).collect())
    };
    let array: Vec<Value> = rows.iter().map(object).collect();
    serde_json::to_string_pretty(&array).unwrap_or_default()
}

/// How a value of the backing store is written in JSON.
pub fn cell_of(value: &SqlValue) -> (cell: JsonCell)
    ensures
        cell@ == sql_cell(*value),
{
    match value {
        SqlValue::Integer(i) => JsonCell::Integer(*i),
        SqlValue::Real(t) => JsonCell::Real(t.clone()),
        SqlValue::Text(t) => JsonCell::Text(t.clone()),
        SqlValue::Blob(_) => JsonCell::Null,
        SqlValue::Null => JsonCell::Null,
    }
}

fn members_of(columns: &Vec<String>, values: &Vec<SqlValue>) -> (members: Vec<(String, JsonCell)>)
    ensures
        Seq::new(members@.len(), |j: int| (members@[j].0@, members@[j].1@)) == row_members(
            columns@,
            values@,
        ),
{
    let n: usize = if columns.len() <= values.len() {
        columns.len()
    } else {
        values.len()
    };
    let mut members: Vec<(String, JsonCell)> = Vec::new();
    let mut i: usize = 0;
    while i < n
        invariant
            i <= n,
            n <= columns.len(),
            n <= values.len(),
            members@.len() == i,
            forall|j: int|
                0 <= j < i ==> (#[trigger] members@[j]).0@ == columns@[j]@ && members@[j].1@
                    == sql_cell(values@[j]),
        decreases n - i,
    {
        let cell = cell_of(&values[i]);
        members.push((columns[i].clone(), cell));
        i = i + 1;
    }
    proof {
        assert(Seq::new(members@.len(), |j: int| (members@[j].0@, members@[j].1@)) =~= row_members(
            columns@,
            values@,
        ));
    }
    members
}

/// Writes the rows of a result as a JSON array of objects, one for each row,
/// laid out over several lines. Each object holds the values of the row under
/// the names of their columns.
pub fn query_result_to_json(result: &QueryResult) -> (text: String)
    ensures
        text@ == pretty_json(result_members(*result)),
{
    let mut rows: Vec<Vec<(String, JsonCell)>> = Vec::new();
    let mut i: usize = 0;
    while i < result.rows.len()
        invariant
            i <= result.rows.len(),
            rows@.len() == i,
            forall|k: int|
                0 <= k < i ==> Seq::new(
                    (#[trigger] rows@[k])@.len(),
                    |j: int| (rows@[k]@[j].0@, rows@[k]@[j].1@),
                ) == row_members(result.columns@, result.rows@[k]@),
        decreases result.rows.len() - i,
    {
        let members = members_of(&result.columns, &result.rows[i]);
        rows.push(members);
        i = i + 1;
    }
    proof {
        assert(member_views(rows@) =~= result_members(*result));
    }
    write_pretty(&rows)
}

/// Tells a place that was found from one that is gone and from a query that
/// failed. `outcome` is what the query for the sampled id gave: nothing where
/// the query failed, its rows otherwise.
///
/// Fails with `StoreQuery` exactly where the query failed, and with
/// `NotFound` exactly where it gave no row.
pub fn resolve(outcome: Option<QueryResult>) -> (r: Result<LocationDetail, Error>)
    ensures
        match outcome {
            None => r matches Err(Error::StoreQuery),
            Some(q) => if q.rows@.len() == 0 {
                r matches Err(Error::NotFound)
            } else {
                r matches Ok(found) && found == q
            },
        },
{
    match outcome {
        None => Err(Error::StoreQuery),
        Some(q) => if q.rows.len() == 0 {
            Err(Error::NotFound)
        } else {
            Ok(q)
        },
    }
}

} // verus!
