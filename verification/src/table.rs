use vstd::prelude::*;

verus! {

/// One unit of selection mass: the id of a place and the weight it is drawn with.
///
/// Weights are fixed-point numbers counted in millionths, so that a place of
/// population 100 with no multiplier has the weight 100 000 000.
#[derive(Clone, Copy, Debug, PartialEq, Eq, Structural)]
pub struct WeightedEntry {
    pub id: i64,
    pub weight: u128,
}

/// The flattened list of `(id, weight)` pairs that samples are drawn from.
/// The same id may occur more than once; its entries add up.
#[derive(Clone, Debug, PartialEq, Eq)]
pub struct WeightedTable {
    pub entries: Vec<WeightedEntry>,
}

impl View for WeightedTable {
    type V = Seq<WeightedEntry>;

    open spec fn view(&self) -> Seq<WeightedEntry> {
        self.entries@
    }
}

/// The sum of all weights.
pub open spec fn total_weight(entries: Seq<WeightedEntry>) -> nat
    decreases entries.len(),
{
    if entries.len() == 0 {
        0
    } else {
        total_weight(entries.drop_last()) + entries.last().weight as nat
    }
}

/// The sum of the weights of the entries that carry `id`.
pub open spec fn mass_of(entries: Seq<WeightedEntry>, id: i64) -> nat
    decreases entries.len(),
{
    if entries.len() == 0 {
        0
    } else if entries.last().id == id {
        mass_of(entries.drop_last(), id) + entries.last().weight as nat
    } else {
        mass_of(entries.drop_last(), id)
    }
}

/// Whether some entry can be drawn at all.
pub open spec fn has_positive_weight(entries: Seq<WeightedEntry>) -> bool {
    exists|i: int| 0 <= i < entries.len() && (#[trigger] entries[i]).weight > 0
}

impl WeightedTable {
    /// The table without entries.
    pub fn new() -> (t: WeightedTable)
        ensures
            t@ == Seq::<WeightedEntry>::empty(),
    {
        WeightedTable { entries: Vec::new() }
    }

    /// The table of the given entries, in their order.
    pub fn from_entries(entries: Vec<WeightedEntry>) -> (t: WeightedTable)
        ensures
            t@ == entries@,
    {
        WeightedTable { entries }
    }

    /// How many entries the table has.
    pub fn len(&self) -> (n: usize)
        ensures
            n == self@.len(),
    {
        self.entries.len()
    }

    /// Whether the table has no entries.
    pub fn is_empty(&self) -> (b: bool)
        ensures
            b == (self@.len() == 0),
    {
        self.entries.len() == 0
    }

    /// The entry at `index`, where there is one.
    pub fn get(&self, index: usize) -> (e: Option<WeightedEntry>)
        ensures
            index < self@.len() ==> e == Some(self@[index as int]),
            index >= self@.len() ==> e is None,
    {
        if index < self.entries.len() {
            Some(self.entries[index])
        } else {
            None
        }
    }

    /// The selection mass of `id`, or `None` where it does not fit.
    pub fn mass(&self, id: i64) -> (m: Option<u128>)
        ensures
            mass_of(self@, id) <= u128::MAX ==> m == Some(mass_of(self@, id) as u128),
            mass_of(self@, id) > u128::MAX ==> m is None,
    {
        let mut sum: u128 = 0;
        let mut i: usize = 0;
        while i < self.entries.len()
            invariant
                i <= self.entries.len(),
                sum == mass_of(self@.take(i as int), id),
            decreases self.entries.len() - i,
        {
            proof {
                assert(self@.take(i + 1).drop_last() == self@.take(i as int));
            }
            let e: WeightedEntry = self.entries[i];
            if e.id == id {
                match sum.checked_add(e.weight) {
                    Some(s) => {
                        sum = s;
                    },
                    None => {
                        proof {
                            lemma_mass_monotone(self@, id, i + 1);
                        }
                        return None;
                    },
                }
            }
            i = i + 1;
        }
        proof {
            assert(self@.take(i as int) == self@);
        }
        Some(sum)
    }

    /// The sum of all weights, or `None` where it does not fit.
    pub fn total(&self) -> (m: Option<u128>)
        ensures
            total_weight(self@) <= u128::MAX ==> m == Some(total_weight(self@) as u128),
            total_weight(self@) > u128::MAX ==> m is None,
    {
        let mut sum: u128 = 0;
        let mut i: usize = 0;
        while i < self.entries.len()
            invariant
                i <= self.entries.len(),
                sum == total_weight(self@.take(i as int)),
            decreases self.entries.len() - i,
        {
            proof {
                assert(self@.take(i + 1).drop_last() == self@.take(i as int));
            }
            let e: WeightedEntry = self.entries[i];
            match sum.checked_add(e.weight) {
                Some(s) => {
                    sum = s;
                },
                None => {
                    proof {
                        lemma_total_monotone(self@, i + 1);
                    }
                    return None;
                },
            }
            i = i + 1;
        }
        proof {
            assert(self@.take(i as int) == self@);
        }
        Some(sum)
    }
}

/// A prefix of a table weighs no more than the table.
pub proof fn lemma_total_monotone(entries: Seq<WeightedEntry>, n: int)
    requires
        0 <= n <= entries.len(),
    ensures
        total_weight(entries.take(n)) <= total_weight(entries),
    decreases entries.len(),
{
    if n == entries.len() {
        assert(entries.take(n) == entries);
    } else {
        assert(entries.drop_last().take(n) == entries.take(n));
        lemma_total_monotone(entries.drop_last(), n);
    }
}

/// An id has no more mass in a prefix of a table than in the table.
pub proof fn lemma_mass_monotone(entries: Seq<WeightedEntry>, id: i64, n: int)
    requires
        0 <= n <= entries.len(),
    ensures
        mass_of(entries.take(n), id) <= mass_of(entries, id),
    decreases entries.len(),
{
    if n == entries.len() {
        assert(entries.take(n) == entries);
    } else {
        assert(entries.drop_last().take(n) == entries.take(n));
        lemma_mass_monotone(entries.drop_last(), id, n);
    }
}

/// The weight of a table made of two parts is the sum of the parts' weights.
pub proof fn lemma_total_concat(a: Seq<WeightedEntry>, b: Seq<WeightedEntry>)
    ensures
        total_weight(a + b) == total_weight(a) + total_weight(b),
    decreases b.len(),
{
    if b.len() == 0 {
        assert(a + b == a);
    } else {
        assert((a + b).drop_last() == a + b.drop_last());
        lemma_total_concat(a, b.drop_last());
    }
}

/// The mass of an id in a table made of two parts is the sum of its masses in the parts.
pub proof fn lemma_mass_concat(a: Seq<WeightedEntry>, b: Seq<WeightedEntry>, id: i64)
    ensures
        mass_of(a + b, id) == mass_of(a, id) + mass_of(b, id),
    decreases b.len(),
{
    if b.len() == 0 {
        assert(a + b == a);
    } else {
        assert((a + b).drop_last() == a + b.drop_last());
        lemma_mass_concat(a, b.drop_last(), id);
    }
}

/// A table has total weight zero exactly when no entry has a positive weight.
pub proof fn lemma_total_zero(entries: Seq<WeightedEntry>)
    ensures
        total_weight(entries) == 0 <==> !has_positive_weight(entries),
    decreases entries.len(),
{
    if entries.len() == 0 {
    } else {
        let front = entries.drop_last();
        lemma_total_zero(front);
        if has_positive_weight(front) {
            let i = choose|i: int| 0 <= i < front.len() && (#[trigger] front[i]).weight > 0;
            assert(entries[i].weight > 0);
        }
        if has_positive_weight(entries) {
            let i = choose|i: int| 0 <= i < entries.len() && (#[trigger] entries[i]).weight > 0;
            if i < front.len() {
                assert(front[i].weight > 0);
            }
        }
        if entries.last().weight > 0 {
            assert(entries[entries.len() - 1].weight > 0);
        }
    }
}

} // verus!
