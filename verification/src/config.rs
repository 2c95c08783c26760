use vstd::prelude::*;
use crate::error::Error;

verus! {

/// How many units of a multiplier make one: multipliers and weights are
/// fixed-point numbers counted in millionths.
pub const MULTIPLIER_SCALE: u64 = 1_000_000;

/// The population threshold used where the weighting document names none.
pub const DEFAULT_BASE_POPULATION: i64 = 49999;

/// A factor by which a population is scaled, in millionths: `2_500_000` is 2.5.
///
/// The multipliers are the whole numbers of millionths from one millionth to
/// `u64::MAX` millionths. A positive number between two of them, or above the
/// largest, is no multiplier, and there is no rounding to the nearest one.
#[derive(Clone, Copy, Debug, PartialEq, Eq, Structural)]
pub struct Multiplier {
    pub millionths: u64,
}

impl Multiplier {
    /// The multiplier of so many millionths. There is none of zero.
    pub fn from_millionths(millionths: u64) -> (r: Option<Multiplier>)
        ensures
            millionths > 0 ==> r == Some(Multiplier { millionths }),
            millionths == 0 ==> r is None,
    {
        if millionths > 0 {
            Some(Multiplier { millionths })
        } else {
            None
        }
    }

    /// The multiplier that leaves a population as it is.
    pub fn one() -> (r: Multiplier)
        ensures
            r.millionths == MULTIPLIER_SCALE,
    {
        Multiplier { millionths: MULTIPLIER_SCALE }
    }
}

/// One line of a weighting axis: rows whose name equals `key` are scaled by `multiplier`.
#[derive(Clone, Debug, PartialEq, Eq)]
pub struct WeightRule {
    pub key: String,
    pub multiplier: Multiplier,
}

/// The weighting document: a population threshold and, for each of the two
/// axes, either a mapping from names to multipliers or nothing at all.
#[derive(Clone, Debug, PartialEq, Eq)]
pub struct WeightConfig {
    pub base_population: i64,
    pub country_weights: Option<Vec<WeightRule>>,
    pub city_weights: Option<Vec<WeightRule>>,
}

/// A rule as a plain value.
pub ghost struct RuleView {
    pub key: Seq<char>,
    pub millionths: u64,
}

/// A weighting document as a plain value.
pub ghost struct ConfigView {
    pub base_population: int,
    pub country_weights: Option<Seq<RuleView>>,
    pub city_weights: Option<Seq<RuleView>>,
}

impl View for WeightRule {
    type V = RuleView;

    open spec fn view(&self) -> RuleView {
        RuleView { key: self.key@, millionths: self.multiplier.millionths }
    }
}

/// The rules of a list, each by its view.
pub open spec fn rule_views(rules: Seq<WeightRule>) -> Seq<RuleView> {
    Seq::new(rules.len(), |i: int| rules[i]@)
}

/// An axis by its view: absent, or the views of its rules.
pub open spec fn axis_view(axis: Option<Vec<WeightRule>>) -> Option<Seq<RuleView>> {
    match axis {
        Some(rules) => Some(rule_views(rules@)),
        None => None,
    }
}

impl View for WeightConfig {
    type V = ConfigView;

    open spec fn view(&self) -> ConfigView {
        ConfigView {
            base_population: self.base_population as int,
            country_weights: axis_view(self.country_weights),
            city_weights: axis_view(self.city_weights),
        }
    }
}

/// A list of rules is a mapping with positive multipliers: no multiplier is
/// zero and no key occurs twice.
pub open spec fn rules_wf(rules: Seq<RuleView>) -> bool {
    &&& forall|i: int| 0 <= i < rules.len() ==> (#[trigger] rules[i]).millionths > 0
    &&& forall|i: int, j: int|
        0 <= i < j < rules.len() ==> (#[trigger] rules[i]).key != (#[trigger] rules[j]).key
}

/// An axis that is present is a mapping with positive multipliers.
pub open spec fn axis_wf(axis: Option<Seq<RuleView>>) -> bool {
    match axis {
        Some(rules) => rules_wf(rules),
        None => true,
    }
}

impl ConfigView {
    /// Both axes are well formed.
    pub open spec fn wf(self) -> bool {
        axis_wf(self.country_weights) && axis_wf(self.city_weights)
    }
}

/// Whether `rules` is a mapping with positive multipliers.
pub fn rules_valid(rules: &Vec<WeightRule>) -> (ok: bool)
    ensures
        ok == rules_wf(rule_views(rules@)),
{
    let ghost views = rule_views(rules@);
    let mut i: usize = 0;
    while i < rules.len()
        invariant
            i <= rules.len(),
            views == rule_views(rules@),
            forall|k: int| 0 <= k < i ==> (#[trigger] views[k]).millionths > 0,
            forall|k: int, l: int|
                0 <= k < l < i ==> (#[trigger] views[k]).key != (#[trigger] views[l]).key,
        decreases rules.len() - i,
    {
        if rules[i].multiplier.millionths == 0 {
            assert(views[i as int].millionths == 0);
            return false;
        }
        let mut j: usize = 0;
        while j < i
            invariant
                j <= i < rules.len(),
                views == rule_views(rules@),
                forall|k: int| 0 <= k < j ==> (#[trigger] views[k]).key != views[i as int].key,
            decreases i - j,
        {
            if rules[j].key == rules[i].key {
                assert(views[j as int].key == views[i as int].key);
                return false;
            }
            j = j + 1;
        }
        i = i + 1;
    }
    true
}

impl WeightConfig {
    /// A document that names no axis: every row falls back to its population on both.
    pub fn unweighted(base_population: i64) -> (cfg: WeightConfig)
        ensures
            cfg@ == (ConfigView {
                base_population: base_population as int,
                country_weights: None,
                city_weights: None,
            }),
            cfg@.wf(),
    {
        WeightConfig { base_population, country_weights: None, city_weights: None }
    }

    /// The document with the given threshold and axes.
    ///
    /// Fails with `ConfigParse` exactly where an axis holds a multiplier of
    /// zero or names a key twice.
    pub fn new(
        base_population: i64,
        country_weights: Option<Vec<WeightRule>>,
        city_weights: Option<Vec<WeightRule>>,
    ) -> (r: Result<WeightConfig, Error>)
        ensures
            match r {
                Ok(cfg) => cfg.base_population == base_population && cfg.country_weights
                    == country_weights && cfg.city_weights == city_weights && cfg@.wf(),
                Err(error) => error == Error::ConfigParse && !(axis_wf(axis_view(country_weights))
                    && axis_wf(axis_view(city_weights))),
            },
    {
        let cfg = WeightConfig { base_population, country_weights, city_weights };
        if cfg.is_valid() {
            Ok(cfg)
        } else {
            Err(Error::ConfigParse)
        }
    }

    /// Whether both axes are mappings with positive multipliers.
    pub fn is_valid(&self) -> (ok: bool)
        ensures
            ok == self@.wf(),
    {
        let country_ok = match &self.country_weights {
            Some(rules) => rules_valid(rules),
            None => true,
        };
        let city_ok = match &self.city_weights {
            Some(rules) => rules_valid(rules),
            None => true,
        };
        country_ok && city_ok
    }
}

} // verus!
