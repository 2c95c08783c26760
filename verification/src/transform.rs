use vstd::prelude::*;
use crate::config::{
    axis_view, axis_wf, rule_views, rules_wf, ConfigView, RuleView, WeightConfig, WeightRule,
    MULTIPLIER_SCALE,
};
use crate::error::Error;
use crate::table::{
    lemma_mass_concat, lemma_total_concat, mass_of, total_weight, WeightedEntry, WeightedTable,
};

verus! {

/// What the weighting needs of a place: its id, its population and the two
/// names that rules are matched against.
#[derive(Clone, Debug, PartialEq, Eq)]
pub struct CandidateRow {
    pub id: i64,
    pub population: u64,
    pub country: String,
    pub city_name: String,
}

/// A candidate row as a plain value.
pub ghost struct RowView {
    pub id: i64,
    pub population: u64,
    pub country: Seq<char>,
    pub city_name: Seq<char>,
}

impl View for CandidateRow {
    type V = RowView;

    open spec fn view(&self) -> RowView {
        RowView {
            id: self.id,
            population: self.population,
            country: self.country@,
            city_name: self.city_name@,
        }
    }
}

/// The rows of a list, each by its view.
pub open spec fn row_views(rows: Seq<CandidateRow>) -> Seq<RowView> {
    Seq::new(rows.len(), |i: int| rows[i]@)
}

/// The entry of a place of the given population under a multiplier.
pub open spec fn weighted(id: i64, population: u64, millionths: u64) -> WeightedEntry {
    WeightedEntry { id, weight: (population as int * millionths as int) as u128 }
}

/// The entry of a place that no multiplier applies to: its population as it is.
pub open spec fn unweighted(id: i64, population: u64) -> WeightedEntry {
    weighted(id, population, MULTIPLIER_SCALE)
}

/// One entry for each rule whose key is `name`, in the order of the rules.
pub open spec fn rule_entries(
    id: i64,
    population: u64,
    name: Seq<char>,
    rules: Seq<RuleView>,
) -> Seq<WeightedEntry>
    decreases rules.len(),
{
    if rules.len() == 0 {
        Seq::empty()
    } else {
        let front = rule_entries(id, population, name, rules.drop_last());
        if rules.last().key == name {
            front.push(weighted(id, population, rules.last().millionths))
        } else {
            front
        }
    }
}

/// What one axis contributes for a place. An axis that is absent contributes
/// the population as it is. An axis that is present contributes the matching
/// rules only: a place that matches none of them gets nothing from that axis.
pub open spec fn axis_entries(
    id: i64,
    population: u64,
    name: Seq<char>,
    axis: Option<Seq<RuleView>>,
) -> Seq<WeightedEntry> {
    match axis {
        Some(rules) => rule_entries(id, population, name, rules),
        None => seq![unweighted(id, population)],
    }
}

/// What a row contributes: the country axis first, then the city axis.
pub open spec fn row_entries(row: RowView, cfg: ConfigView) -> Seq<WeightedEntry> {
    axis_entries(row.id, row.population, row.country, cfg.country_weights) + axis_entries(
        row.id,
        row.population,
        row.city_name,
        cfg.city_weights,
    )
}

/// The table of a row set: the contributions of the rows, in the order of the rows.
pub open spec fn table_of(rows: Seq<RowView>, cfg: ConfigView) -> Seq<WeightedEntry>
    decreases rows.len(),
{
    if rows.len() == 0 {
        Seq::empty()
    } else {
        table_of(rows.drop_last(), cfg) + row_entries(rows.last(), cfg)
    }
}

fn weigh(id: i64, population: u64, millionths: u64) -> (e: WeightedEntry)
    ensures
        e == weighted(id, population, millionths),
{
    assert(population as int * millionths as int <= u128::MAX) by (nonlinear_arith)
        requires
            population <= u64::MAX,
            millionths <= u64::MAX,
    ;
    assert(0 <= population as int * millionths as int) by (nonlinear_arith);
    let p: u128 = population as u128;
    let m: u128 = millionths as u128;
    WeightedEntry { id, weight: p * m }
}

fn push_axis(
    entries: &mut Vec<WeightedEntry>,
    id: i64,
    population: u64,
    name: &String,
    axis: &Option<Vec<WeightRule>>,
)
    ensures
        final(entries)@ == old(entries)@ + axis_entries(id, population, name@, axis_view(*axis)),
{
    let ghost before = entries@;
    match axis {
        Some(rules) => {
            let ghost views = rule_views(rules@);
            let mut j: usize = 0;
            while j < rules.len()
                invariant
                    j <= rules.len(),
                    views == rule_views(rules@),
                    entries@ == before + rule_entries(id, population, name@, views.take(j as int)),
                decreases rules.len() - j,
            {
                proof {
                    assert(views.take(j + 1).drop_last() == views.take(j as int));
                    assert(views.take(j + 1).last() == rules@[j as int]@);
                }
                if rules[j].key == *name {
                    let e: WeightedEntry = weigh(id, population, rules[j].multiplier.millionths);
                    entries.push(e);
                }
                j = j + 1;
            }
            proof {
                assert(views.take(j as int) == views);
            }
        },
        None => {
            let e: WeightedEntry = weigh(id, population, MULTIPLIER_SCALE);
            entries.push(e);
        },
    }
}

/// Builds the weighted table of `rows` under `cfg`.
///
/// A document with a multiplier of zero, or with a key that occurs twice on
/// one axis, is rejected as a whole.
pub fn transform(rows: &Vec<CandidateRow>, cfg: &WeightConfig) -> (r: Result<WeightedTable, Error>)
    ensures
        cfg@.wf() ==> (r matches Ok(t) && t@ == table_of(row_views(rows@), cfg@)),
        !cfg@.wf() ==> (r matches Err(Error::ConfigParse)),
{
    if !cfg.is_valid() {
        return Err(Error::ConfigParse);
    }
    let ghost views = row_views(rows@);
    let mut entries: Vec<WeightedEntry> = Vec::new();
    let mut i: usize = 0;
    while i < rows.len()
        invariant
            i <= rows.len(),
            views == row_views(rows@),
            entries@ == table_of(views.take(i as int), cfg@),
        decreases rows.len() - i,
    {
        proof {
            assert(views.take(i + 1).drop_last() == views.take(i as int));
            assert(views.take(i + 1).last() == rows@[i as int]@);
        }
        let row = &rows[i];
        push_axis(&mut entries, row.id, row.population, &row.country, &cfg.country_weights);
        push_axis(&mut entries, row.id, row.population, &row.city_name, &cfg.city_weights);
        i = i + 1;
    }
    proof {
        assert(views.take(i as int) == views);
    }
    Ok(WeightedTable { entries })
}

/// A rule list in which no key matches contributes nothing.
pub proof fn lemma_no_match(id: i64, population: u64, name: Seq<char>, rules: Seq<RuleView>)
    requires
        forall|k: int| 0 <= k < rules.len() ==> (#[trigger] rules[k]).key != name,
    ensures
        rule_entries(id, population, name, rules) == Seq::<WeightedEntry>::empty(),
    decreases rules.len(),
{
    if rules.len() > 0 {
        let front = rules.drop_last();
        assert forall|k: int| 0 <= k < front.len() implies (#[trigger] front[k]).key != name by {
            assert(front[k] == rules[k]);
        }
        lemma_no_match(id, population, name, front);
        assert(rules.last() == rules[rules.len() - 1]);
    }
}

/// In a mapping, the rule whose key matches contributes the one entry of the axis.
pub proof fn lemma_one_match(
    id: i64,
    population: u64,
    name: Seq<char>,
    rules: Seq<RuleView>,
    k: int,
)
    requires
        rules_wf(rules),
        0 <= k < rules.len(),
        rules[k].key == name,
    ensures
        rule_entries(id, population, name, rules) == seq![
            weighted(id, population, rules[k].millionths),
        ],
    decreases rules.len(),
{
    let front = rules.drop_last();
    assert(rules.last() == rules[rules.len() - 1]);
    if k == rules.len() - 1 {
        assert forall|l: int| 0 <= l < front.len() implies (#[trigger] front[l]).key != name by {
            assert(front[l] == rules[l]);
            assert(rules[l].key != rules[k].key);
        }
        lemma_no_match(id, population, name, front);
        assert(Seq::<WeightedEntry>::empty().push(weighted(id, population, rules[k].millionths))
            == seq![weighted(id, population, rules[k].millionths)]);
    } else {
        assert(rules[k].key != rules[rules.len() - 1].key);
        assert(rules_wf(front)) by {
            assert forall|i: int| 0 <= i < front.len() implies (#[trigger] front[i]).millionths
                > 0 by {
                assert(front[i] == rules[i]);
            }
            assert forall|i: int, j: int| 0 <= i < j < front.len() implies (#[trigger] front[i]).key
                != (#[trigger] front[j]).key by {
                assert(front[i] == rules[i]);
                assert(front[j] == rules[j]);
            }
        }
        assert(front[k] == rules[k]);
        lemma_one_match(id, population, name, front, k);
    }
}

/// A row that matches a country rule and a city rule contributes exactly two
/// entries: its population scaled by the country's multiplier, then its
/// population scaled by the city's multiplier.
pub proof fn lemma_row_matching_both(row: RowView, cfg: ConfigView, c: int, t: int)
    requires
        cfg.wf(),
        cfg.country_weights is Some,
        cfg.city_weights is Some,
        0 <= c < cfg.country_weights->0.len(),
        0 <= t < cfg.city_weights->0.len(),
        cfg.country_weights->0[c].key == row.country,
        cfg.city_weights->0[t].key == row.city_name,
    ensures
        row_entries(row, cfg) == seq![
            weighted(row.id, row.population, cfg.country_weights->0[c].millionths),
            weighted(row.id, row.population, cfg.city_weights->0[t].millionths),
        ],
{
    lemma_one_match(row.id, row.population, row.country, cfg.country_weights->0, c);
    lemma_one_match(row.id, row.population, row.city_name, cfg.city_weights->0, t);
}

/// Whether no rule of the axis has the key `name`. An absent axis has no rules.
pub open spec fn unmatched(name: Seq<char>, axis: Option<Seq<RuleView>>) -> bool {
    match axis {
        Some(rules) => forall|k: int| 0 <= k < rules.len() ==> (#[trigger] rules[k]).key != name,
        None => true,
    }
}

/// What an axis contributes for a place that matches none of its rules: the
/// population as it is where the axis is absent, nothing where it is present.
pub open spec fn fallback_entries(id: i64, population: u64, axis: Option<Seq<RuleView>>) -> Seq<
    WeightedEntry,
> {
    match axis {
        Some(_) => Seq::empty(),
        None => seq![unweighted(id, population)],
    }
}

/// A row that matches no rule contributes its population as it is, once for
/// each axis that is absent. Where exactly one axis is absent that is exactly
/// one entry; where both axes are present the row contributes nothing.
pub proof fn lemma_row_matching_neither(row: RowView, cfg: ConfigView)
    requires
        unmatched(row.country, cfg.country_weights),
        unmatched(row.city_name, cfg.city_weights),
    ensures
        row_entries(row, cfg) == fallback_entries(row.id, row.population, cfg.country_weights)
            + fallback_entries(row.id, row.population, cfg.city_weights),
        (cfg.country_weights is None) != (cfg.city_weights is None) ==> row_entries(row, cfg)
            == seq![unweighted(row.id, row.population)],
        cfg.country_weights is Some && cfg.city_weights is Some ==> row_entries(row, cfg).len()
            == 0,
        unweighted(row.id, row.population).weight == row.population * MULTIPLIER_SCALE,
{
    if cfg.country_weights is Some {
        lemma_no_match(row.id, row.population, row.country, cfg.country_weights->0);
    }
    if cfg.city_weights is Some {
        lemma_no_match(row.id, row.population, row.city_name, cfg.city_weights->0);
    }
    assert(0 <= row.population as int * MULTIPLIER_SCALE as int <= u128::MAX) by (nonlinear_arith)
        requires
            0 <= row.population <= u64::MAX,
            MULTIPLIER_SCALE == 1_000_000,
    ;
}

/// An axis contributes one entry at most: in a mapping no two rules have the
/// same key.
pub proof fn lemma_axis_at_most_one(
    id: i64,
    population: u64,
    name: Seq<char>,
    axis: Option<Seq<RuleView>>,
)
    requires
        axis_wf(axis),
    ensures
        axis_entries(id, population, name, axis).len() <= 1,
{
    if axis is Some {
        let rules = axis->0;
        if exists|k: int| 0 <= k < rules.len() && (#[trigger] rules[k]).key == name {
            let k = choose|k: int| 0 <= k < rules.len() && (#[trigger] rules[k]).key == name;
            lemma_one_match(id, population, name, rules, k);
        } else {
            lemma_no_match(id, population, name, rules);
        }
    }
}

/// A row contributes two entries at most, one for each axis, and so a table
/// has at most twice as many entries as there are rows.
pub proof fn lemma_table_len(rows: Seq<RowView>, cfg: ConfigView)
    requires
        cfg.wf(),
    ensures
        forall|i: int| 0 <= i < rows.len() ==> (#[trigger] row_entries(rows[i], cfg)).len() <= 2,
        table_of(rows, cfg).len() <= 2 * rows.len(),
    decreases rows.len(),
{
    assert forall|i: int| 0 <= i < rows.len() implies (#[trigger] row_entries(rows[i], cfg)).len()
        <= 2 by {
        let row = rows[i];
        lemma_axis_at_most_one(row.id, row.population, row.country, cfg.country_weights);
        lemma_axis_at_most_one(row.id, row.population, row.city_name, cfg.city_weights);
    }
    if rows.len() > 0 {
        lemma_table_len(rows.drop_last(), cfg);
        assert(rows.last() == rows[rows.len() - 1]);
    }
}

/// The table of two row sets, one after the other, is the two tables, one after the other.
pub proof fn lemma_table_concat(a: Seq<RowView>, b: Seq<RowView>, cfg: ConfigView)
    ensures
        table_of(a + b, cfg) == table_of(a, cfg) + table_of(b, cfg),
    decreases b.len(),
{
    if b.len() == 0 {
        assert(a + b == a);
    } else {
        assert((a + b).drop_last() == a + b.drop_last());
        assert((a + b).last() == b.last());
        lemma_table_concat(a, b.drop_last(), cfg);
    }
}

/// Each row appears in the table as one unbroken run: the entries it
/// contributes stand together, after the entries of the rows before it.
pub proof fn lemma_row_segment(rows: Seq<RowView>, cfg: ConfigView, i: int)
    requires
        0 <= i < rows.len(),
    ensures
        ({
            let start = table_of(rows.take(i), cfg).len() as int;
            let run = row_entries(rows[i], cfg);
            &&& start + run.len() <= table_of(rows, cfg).len()
            &&& table_of(rows, cfg).subrange(start, start + run.len()) == run
            &&& table_of(rows, cfg) == table_of(rows.take(i), cfg) + run + table_of(
                rows.skip(i + 1),
                cfg,
            )
        }),
{
    let head = rows.take(i);
    let one = seq![rows[i]];
    let tail = rows.skip(i + 1);
    assert(rows == head + one + tail);
    lemma_table_concat(head + one, tail, cfg);
    lemma_table_concat(head, one, cfg);
    assert(table_of(one, cfg) == row_entries(rows[i], cfg)) by {
        assert(one.drop_last() == Seq::<RowView>::empty());
        assert(table_of(one.drop_last(), cfg) == Seq::<WeightedEntry>::empty());
        assert(one.last() == rows[i]);
        assert(Seq::<WeightedEntry>::empty() + row_entries(rows[i], cfg) == row_entries(
            rows[i],
            cfg,
        ));
    }
}

/// The weight of an entry is the population times the multiplier, in
/// millionths: two 64-bit numbers multiply within a weight's range.
pub proof fn lemma_weighted_exact(id: i64, population: u64, millionths: u64)
    ensures
        weighted(id, population, millionths).id == id,
        weighted(id, population, millionths).weight == population * millionths,
{
    assert(0 <= population as int * millionths as int <= u128::MAX) by (nonlinear_arith)
        requires
            0 <= population <= u64::MAX,
            0 <= millionths <= u64::MAX,
    ;
}

/// A row that matches a country rule and a city rule has the sum of the two
/// scaled populations as its mass: the two multipliers add up, they are not
/// multiplied with each other.
pub proof fn lemma_mass_matching_both(row: RowView, cfg: ConfigView, c: int, t: int)
    requires
        cfg.wf(),
        cfg.country_weights is Some,
        cfg.city_weights is Some,
        0 <= c < cfg.country_weights->0.len(),
        0 <= t < cfg.city_weights->0.len(),
        cfg.country_weights->0[c].key == row.country,
        cfg.city_weights->0[t].key == row.city_name,
    ensures
        mass_of(row_entries(row, cfg), row.id) == row.population * cfg.country_weights->0[c].millionths
            + row.population * cfg.city_weights->0[t].millionths,
{
    let by_country = weighted(row.id, row.population, cfg.country_weights->0[c].millionths);
    let by_city = weighted(row.id, row.population, cfg.city_weights->0[t].millionths);
    lemma_row_matching_both(row, cfg, c, t);
    lemma_weighted_exact(row.id, row.population, cfg.country_weights->0[c].millionths);
    lemma_weighted_exact(row.id, row.population, cfg.city_weights->0[t].millionths);
    let both = seq![by_country, by_city];
    assert(both.drop_last() == seq![by_country]);
    assert(seq![by_country].drop_last() == Seq::<WeightedEntry>::empty());
    reveal_with_fuel(mass_of, 3);
}

/// Whether every entry carries `id`.
pub open spec fn all_carry(entries: Seq<WeightedEntry>, id: i64) -> bool {
    forall|k: int| 0 <= k < entries.len() ==> (#[trigger] entries[k]).id == id
}

proof fn lemma_rule_entries_id(id: i64, population: u64, name: Seq<char>, rules: Seq<RuleView>)
    ensures
        all_carry(rule_entries(id, population, name, rules), id),
    decreases rules.len(),
{
    if rules.len() > 0 {
        lemma_rule_entries_id(id, population, name, rules.drop_last());
        let front = rule_entries(id, population, name, rules.drop_last());
        let all = rule_entries(id, population, name, rules);
        assert forall|k: int| 0 <= k < all.len() implies (#[trigger] all[k]).id == id by {
            if k < front.len() {
                assert(all[k] == front[k]);
            }
        }
    }
}

/// Every entry that a row contributes carries the id of the row.
pub proof fn lemma_row_entries_id(row: RowView, cfg: ConfigView)
    ensures
        all_carry(row_entries(row, cfg), row.id),
{
    let by_country = axis_entries(row.id, row.population, row.country, cfg.country_weights);
    let by_city = axis_entries(row.id, row.population, row.city_name, cfg.city_weights);
    if cfg.country_weights is Some {
        lemma_rule_entries_id(row.id, row.population, row.country, cfg.country_weights->0);
    }
    if cfg.city_weights is Some {
        lemma_rule_entries_id(row.id, row.population, row.city_name, cfg.city_weights->0);
    }
    assert(all_carry(by_country, row.id));
    assert(all_carry(by_city, row.id));
    assert forall|k: int| 0 <= k < (by_country + by_city).len() implies (#[trigger] (by_country
        + by_city)[k]).id == row.id by {
        if k < by_country.len() {
            assert((by_country + by_city)[k] == by_country[k]);
        } else {
            assert((by_country + by_city)[k] == by_city[k - by_country.len()]);
        }
    }
}

proof fn lemma_mass_of_other_id(entries: Seq<WeightedEntry>, carried: i64, id: i64)
    requires
        all_carry(entries, carried),
        id != carried,
    ensures
        mass_of(entries, id) == 0,
    decreases entries.len(),
{
    if entries.len() > 0 {
        let front = entries.drop_last();
        assert forall|k: int| 0 <= k < front.len() implies (#[trigger] front[k]).id == carried by {
            assert(front[k] == entries[k]);
        }
        lemma_mass_of_other_id(front, carried, id);
        assert(entries.last() == entries[entries.len() - 1]);
    }
}

/// A row adds what it contributes to the weight of the table and to the mass
/// of its id: the entries of one id add up over the rows and the axes. The
/// mass of every other id stays as it was.
pub proof fn lemma_table_mass(rows: Seq<RowView>, row: RowView, cfg: ConfigView, id: i64)
    ensures
        table_of(rows.push(row), cfg) == table_of(rows, cfg) + row_entries(row, cfg),
        total_weight(table_of(rows.push(row), cfg)) == total_weight(table_of(rows, cfg))
            + total_weight(row_entries(row, cfg)),
        mass_of(table_of(rows.push(row), cfg), id) == mass_of(table_of(rows, cfg), id) + mass_of(
            row_entries(row, cfg),
            id,
        ),
        id != row.id ==> mass_of(table_of(rows.push(row), cfg), id) == mass_of(
            table_of(rows, cfg),
            id,
        ),
{
    assert(rows.push(row).drop_last() == rows);
    lemma_total_concat(table_of(rows, cfg), row_entries(row, cfg));
    lemma_mass_concat(table_of(rows, cfg), row_entries(row, cfg), id);
    if id != row.id {
        lemma_row_entries_id(row, cfg);
        lemma_mass_of_other_id(row_entries(row, cfg), row.id, id);
    }
}

/// Whether no two rows carry the same id.
pub open spec fn ids_distinct(rows: Seq<RowView>) -> bool {
    forall|i: int, j: int|
        0 <= i < j < rows.len() ==> (#[trigger] rows[i]).id != (#[trigger] rows[j]).id
}

/// Whether no entry carries `id`.
pub open spec fn none_carry(entries: Seq<WeightedEntry>, id: i64) -> bool {
    forall|k: int| 0 <= k < entries.len() ==> (#[trigger] entries[k]).id != id
}

/// The table of rows of which none carries `id` has no entry that carries it.
pub proof fn lemma_table_without_id(rows: Seq<RowView>, cfg: ConfigView, id: i64)
    requires
        forall|j: int| 0 <= j < rows.len() ==> (#[trigger] rows[j]).id != id,
    ensures
        none_carry(table_of(rows, cfg), id),
    decreases rows.len(),
{
    if rows.len() > 0 {
        let front = rows.drop_last();
        let row = rows.last();
        assert forall|j: int| 0 <= j < front.len() implies (#[trigger] front[j]).id != id by {
            assert(front[j] == rows[j]);
        }
        lemma_table_without_id(front, cfg, id);
        assert(row == rows[rows.len() - 1]);
        lemma_row_entries_id(row, cfg);
        let head = table_of(front, cfg);
        let run = row_entries(row, cfg);
        assert forall|k: int| 0 <= k < (head + run).len() implies (#[trigger] (head + run)[k]).id
            != id by {
            if k < head.len() {
                assert((head + run)[k] == head[k]);
            } else {
                assert((head + run)[k] == run[k - head.len()]);
            }
        }
    }
}

proof fn lemma_mass_none(entries: Seq<WeightedEntry>, id: i64)
    requires
        none_carry(entries, id),
    ensures
        mass_of(entries, id) == 0,
    decreases entries.len(),
{
    if entries.len() > 0 {
        let front = entries.drop_last();
        assert forall|k: int| 0 <= k < front.len() implies (#[trigger] front[k]).id != id by {
            assert(front[k] == entries[k]);
        }
        lemma_mass_none(front, id);
        assert(entries.last() == entries[entries.len() - 1]);
    }
}

proof fn lemma_mass_all(entries: Seq<WeightedEntry>, id: i64)
    requires
        all_carry(entries, id),
    ensures
        mass_of(entries, id) == total_weight(entries),
    decreases entries.len(),
{
    if entries.len() > 0 {
        let front = entries.drop_last();
        assert forall|k: int| 0 <= k < front.len() implies (#[trigger] front[k]).id == id by {
            assert(front[k] == entries[k]);
        }
        lemma_mass_all(front, id);
        assert(entries.last() == entries[entries.len() - 1]);
    }
}

/// Where no two rows carry the same id, the entries of the table that carry
/// the id of a row are the entries that the row contributes, and no others:
/// they stand at the places of its run, and the mass of the id is the weight
/// of the run.
pub proof fn lemma_row_entries_alone(rows: Seq<RowView>, cfg: ConfigView, i: int)
    requires
        ids_distinct(rows),
        0 <= i < rows.len(),
    ensures
        ({
            let start = table_of(rows.take(i), cfg).len() as int;
            let run = row_entries(rows[i], cfg);
            let table = table_of(rows, cfg);
            &&& table == table_of(rows.take(i), cfg) + run + table_of(rows.skip(i + 1), cfg)
            &&& forall|k: int|
                0 <= k < table.len() ==> ((#[trigger] table[k]).id == rows[i].id <==> start <= k
                    < start + run.len())
            &&& mass_of(table, rows[i].id) == total_weight(run)
        }),
{
    let id = rows[i].id;
    let before = rows.take(i);
    let after = rows.skip(i + 1);
    let head = table_of(before, cfg);
    let run = row_entries(rows[i], cfg);
    let tail = table_of(after, cfg);
    let table = table_of(rows, cfg);
    lemma_row_segment(rows, cfg, i);
    assert forall|j: int| 0 <= j < before.len() implies (#[trigger] before[j]).id != id by {
        assert(before[j] == rows[j]);
    }
    assert forall|j: int| 0 <= j < after.len() implies (#[trigger] after[j]).id != id by {
        assert(after[j] == rows[i + 1 + j]);
    }
    lemma_table_without_id(before, cfg, id);
    lemma_table_without_id(after, cfg, id);
    lemma_row_entries_id(rows[i], cfg);
    assert forall|k: int| 0 <= k < table.len() implies ((#[trigger] table[k]).id == id <==> head.len()
        <= k < head.len() + run.len()) by {
        if k < head.len() {
            assert(table[k] == head[k]);
        } else if k < head.len() + run.len() {
            assert(table[k] == run[k - head.len()]);
        } else {
            assert(table[k] == tail[k - head.len() - run.len()]);
        }
    }
    lemma_mass_concat(head + run, tail, id);
    lemma_mass_concat(head, run, id);
    lemma_mass_none(head, id);
    lemma_mass_none(tail, id);
    lemma_mass_all(run, id);
}

/// Under positive multipliers a place with a positive population has a positive weight.
pub proof fn lemma_weighted_positive(id: i64, population: u64, millionths: u64)
    requires
        population > 0,
        millionths > 0,
    ensures
        weighted(id, population, millionths).weight > 0,
        weighted(id, population, millionths).weight == population * millionths,
{
    assert(0 < population as int * millionths as int <= u128::MAX) by (nonlinear_arith)
        requires
            0 < population <= u64::MAX,
            0 < millionths <= u64::MAX,
    ;
}

/// Whether every entry has a positive weight.
pub open spec fn all_positive(entries: Seq<WeightedEntry>) -> bool {
    forall|k: int| 0 <= k < entries.len() ==> (#[trigger] entries[k]).weight > 0
}

proof fn lemma_all_positive_concat(a: Seq<WeightedEntry>, b: Seq<WeightedEntry>)
    requires
        all_positive(a),
        all_positive(b),
    ensures
        all_positive(a + b),
{
    assert forall|k: int| 0 <= k < (a + b).len() implies (#[trigger] (a + b)[k]).weight > 0 by {
        if k < a.len() {
            assert((a + b)[k] == a[k]);
        } else {
            assert((a + b)[k] == b[k - a.len()]);
        }
    }
}

proof fn lemma_rule_entries_positive(
    id: i64,
    population: u64,
    name: Seq<char>,
    rules: Seq<RuleView>,
)
    requires
        population > 0,
        forall|k: int| 0 <= k < rules.len() ==> (#[trigger] rules[k]).millionths > 0,
    ensures
        all_positive(rule_entries(id, population, name, rules)),
    decreases rules.len(),
{
    if rules.len() > 0 {
        let front = rules.drop_last();
        assert forall|k: int| 0 <= k < front.len() implies (#[trigger] front[k]).millionths
            > 0 by {
            assert(front[k] == rules[k]);
        }
        lemma_rule_entries_positive(id, population, name, front);
        assert(rules.last() == rules[rules.len() - 1]);
        lemma_weighted_positive(id, population, rules.last().millionths);
        let head = rule_entries(id, population, name, front);
        let one = seq![weighted(id, population, rules.last().millionths)];
        assert(all_positive(one));
        assert(head.push(one[0]) == head + one);
        lemma_all_positive_concat(head, one);
    }
}

/// Under a document whose multipliers are all positive, every entry of the
/// table of rows with positive populations has a positive weight.
pub proof fn lemma_weights_positive(rows: Seq<RowView>, cfg: ConfigView)
    requires
        cfg.wf(),
        forall|i: int| 0 <= i < rows.len() ==> (#[trigger] rows[i]).population > 0,
    ensures
        all_positive(table_of(rows, cfg)),
    decreases rows.len(),
{
    if rows.len() > 0 {
        let front = rows.drop_last();
        let row = rows.last();
        assert forall|i: int| 0 <= i < front.len() implies (#[trigger] front[i]).population
            > 0 by {
            assert(front[i] == rows[i]);
        }
        lemma_weights_positive(front, cfg);
        assert(row == rows[rows.len() - 1]);
        lemma_weighted_positive(row.id, row.population, MULTIPLIER_SCALE);
        let by_country = axis_entries(row.id, row.population, row.country, cfg.country_weights);
        let by_city = axis_entries(row.id, row.population, row.city_name, cfg.city_weights);
        if cfg.country_weights is Some {
            lemma_rule_entries_positive(row.id, row.population, row.country, cfg.country_weights->0);
        }
        if cfg.city_weights is Some {
            lemma_rule_entries_positive(row.id, row.population, row.city_name, cfg.city_weights->0);
        }
        assert(all_positive(by_country));
        assert(all_positive(by_city));
        lemma_all_positive_concat(by_country, by_city);
        lemma_all_positive_concat(table_of(front, cfg), by_country + by_city);
    }
}

} // verus!
