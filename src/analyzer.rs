//! Per-compound-row analysis: one compound per record, scaled by the compound's
//! multiplier and sorted into Low, Medium and High.
use vstd::prelude::*;
use crate::models::{RiskCategory, category_of_band, category_name};
use crate::scoring::{
    Sample, Measurement, Scheme, is_valid, assess, sample_valid, levels_nonnegative, risk_score,
    base_score, multiplier_of, exposure, factor_of, min_int, in_band, lemma_band_total_and_unique,
};

verus! {

/// One row: sample, compound name, concentration (thousandths), age and gender.
pub struct PfasData {
    pub sample_id: String,
    pub pfas_compound: String,
    pub concentration: i64,
    pub age: u32,
    pub gender: String,
}

/// The score of one row; both scores are in millionths and equal.
pub struct AgingRiskScore {
    pub sample_id: String,
    pub risk_score: u64,
    pub risk_level: String,
    pub compound_specific_score: u64,
}

/// The rows loaded so far.
pub struct Analyzer {
    pub data: Vec<PfasData>,
}

/// Multiplier of a compound in thousandths: PFNA 1.5, PFOSA 1.3, PFHxS 1.1, others 1.0.
pub open spec fn multiplier_for(name: Seq<char>) -> int {
    if name == "PFNA"@ {
        1500
    } else if name == "PFOSA"@ {
        1300
    } else if name == "PFHxS"@ {
        1100
    } else {
        1000
    }
}

/// Score of a row in millionths: half the concentration plus a tenth per year,
/// times the compound's multiplier.
pub open spec fn row_score(d: PfasData) -> int {
    min_int(
        (d.concentration * 500 + d.age * 100_000) * multiplier_for(d.pfas_compound@) / 1000,
        u64::MAX as int,
    )
}

/// Category of a row score: Low below 4, Medium below 8, High from 8 on.
pub open spec fn level_for(score: int) -> RiskCategory {
    if score < 4_000_000 {
        RiskCategory::Low
    } else if score < 8_000_000 {
        RiskCategory::Medium
    } else {
        RiskCategory::High
    }
}

/// A row may be scored: identifier present, age above zero, concentration not negative.
pub open spec fn record_valid(d: PfasData) -> bool {
    d.sample_id@.len() > 0 && d.age > 0 && d.concentration >= 0
}

/// The valid rows, in order.
pub open spec fn valid_records(rs: Seq<PfasData>) -> Seq<PfasData>
    decreases rs.len(),
{
    if rs.len() == 0 {
        Seq::empty()
    } else if record_valid(rs.last()) {
        valid_records(rs.drop_last()).push(rs.last())
    } else {
        valid_records(rs.drop_last())
    }
}

/// `r` is the score of row `d`.
pub open spec fn scored_as(r: AgingRiskScore, d: PfasData) -> bool {
    &&& r.sample_id@ == d.sample_id@
    &&& r.risk_score == row_score(d)
    &&& r.compound_specific_score == r.risk_score
    &&& r.risk_level@ == category_name(level_for(r.risk_score as int))
}

/// The sample that a row stands for.
pub fn to_sample(d: &PfasData) -> (r: Sample)
    ensures
        r.id@ == d.sample_id@,
        r.age == d.age,
        r.measurements@.len() == 1,
        r.measurements@[0].compound@ == d.pfas_compound@,
        r.measurements@[0].level == d.concentration,
{
    let mut measurements: Vec<Measurement> = Vec::new();
    measurements.push(Measurement { compound: d.pfas_compound.clone(), level: d.concentration });
    Sample { id: d.sample_id.clone(), measurements, age: d.age, gender: d.gender.clone() }
}

/// Scores one valid row.
fn score_record(d: &PfasData, scheme: &Scheme) -> (r: AgingRiskScore)
    requires
        record_valid(*d),
        scheme.weights@.len() == 0,
        scheme.default_weight == 500,
        scheme.scale_single_compound,
        scheme.multipliers@.len() == 3,
        scheme.multipliers@[0].compound@ == "PFNA"@ && scheme.multipliers@[0].factor == 1500,
        scheme.multipliers@[1].compound@ == "PFOSA"@ && scheme.multipliers@[1].factor == 1300,
        scheme.multipliers@[2].compound@ == "PFHxS"@ && scheme.multipliers@[2].factor == 1100,
        scheme.default_multiplier == 1000,
        scheme.age_coefficient == 100,
        scheme.max_score == u64::MAX,
        scheme.thresholds@ == seq![4_000_000u64, 8_000_000u64],
    ensures
        scored_as(r, *d),
{
    let sample = to_sample(d);
    proof {
        let ms = sample.measurements@;
        let m = scheme.multipliers@;
        let name = d.pfas_compound@;
        assert(ms.drop_last() =~= Seq::<Measurement>::empty());
        assert(ms.last() == ms[0]);
        assert(exposure(ms.drop_last(), scheme.weights@, 500) == 0);
        assert(factor_of(scheme.weights@, name, 500) == 500);
        assert(exposure(ms, scheme.weights@, 500) == d.concentration * 500);
        assert(m.drop_first()[0] == m[1]);
        assert(m.drop_first().drop_first()[0] == m[2]);
        assert(m.drop_first().drop_first().drop_first().len() == 0);
        assert(factor_of(m.drop_first().drop_first().drop_first(), name, 1000) == 1000);
        assert(factor_of(m.drop_first().drop_first(), name, 1000) == (if name == "PFHxS"@ { 1100int } else { 1000int }));
        assert(factor_of(m.drop_first(), name, 1000) == (if name == "PFOSA"@ { 1300int } else if name == "PFHxS"@ { 1100int } else { 1000int }));
        assert(multiplier_of(sample, *scheme) == multiplier_for(name));
        assert(base_score(sample, *scheme) == d.concentration * 500 + d.age * 100_000);
        assert(risk_score(sample, *scheme) == row_score(*d));
        assert(levels_nonnegative(ms));
        assert(sample_valid(sample));
    }
    let a = assess(&sample, scheme);
    proof {
        let x = a.score as int;
        lemma_band_total_and_unique(scheme.thresholds@, x, 0);
        assert(in_band(scheme.thresholds@, x, a.band as int));
        assert(category_of_band(a.band as int) == level_for(x));
    }
    let level = RiskCategory::from_band(a.band);
    AgingRiskScore {
        sample_id: a.id,
        risk_score: a.score,
        risk_level: level.name(),
        compound_specific_score: a.score,
    }
}

impl Analyzer {
    /// An analyzer with no rows.
    pub fn new() -> (r: Analyzer)
        ensures
            r.data@.len() == 0,
    {
        Analyzer { data: Vec::new() }
    }

    /// Appends the rows, in order, after those already loaded.
    pub fn load_records(&mut self, records: Vec<PfasData>)
        ensures
            final(self).data@ == old(self).data@ + records@,
    {
        let mut records = records;
        self.data.append(&mut records);
    }

    /// Scores every valid row, in order; invalid rows are left out.
    pub fn analyze_data(&self) -> (r: Vec<AgingRiskScore>)
        ensures
            r@.len() == valid_records(self.data@).len(),
            forall|i: int| 0 <= i < r@.len() ==> scored_as(#[trigger] r@[i], valid_records(self.data@)[i]),
    {
        let scheme = Scheme::compound_row();
        let mut out: Vec<AgingRiskScore> = Vec::new();
        let mut i: usize = 0;
        while i < self.data.len()
            invariant
                i <= self.data@.len(),
                scheme.weights@.len() == 0,
                scheme.default_weight == 500,
                scheme.scale_single_compound,
                scheme.multipliers@.len() == 3,
                scheme.multipliers@[0].compound@ == "PFNA"@ && scheme.multipliers@[0].factor == 1500,
                scheme.multipliers@[1].compound@ == "PFOSA"@ && scheme.multipliers@[1].factor == 1300,
                scheme.multipliers@[2].compound@ == "PFHxS"@ && scheme.multipliers@[2].factor == 1100,
                scheme.default_multiplier == 1000,
                scheme.age_coefficient == 100,
                scheme.max_score == u64::MAX,
                scheme.thresholds@ == seq![4_000_000u64, 8_000_000u64],
                out@.len() == valid_records(self.data@.subrange(0, i as int)).len(),
                forall|j: int| 0 <= j < out@.len() ==> scored_as(
                    #[trigger] out@[j],
                    valid_records(self.data@.subrange(0, i as int))[j],
                ),
            decreases self.data.len() - i,
        {
            let d = &self.data[i];
            assert(self.data@.subrange(0, i + 1).drop_last() =~= self.data@.subrange(0, i as int));
            assert(self.data@.subrange(0, i + 1).last() == self.data@[i as int]);
            let sample = to_sample(d);
            if is_valid(&sample) {
                let r = score_record(d, &scheme);
                out.push(r);
            }
            i = i + 1;
        }
        assert(self.data@.subrange(0, i as int) =~= self.data@);
        out
    }
}

/// An analyzer with no rows.
pub fn new_analyzer() -> (r: Analyzer)
    ensures
        r.data@.len() == 0,
{
    Analyzer::new()
}

/// Scores every valid row of the analyzer, in order.
pub fn analyze_data(analyzer: &Analyzer) -> (r: Vec<AgingRiskScore>)
    ensures
        r@.len() == valid_records(analyzer.data@).len(),
        forall|i: int| 0 <= i < r@.len() ==> scored_as(#[trigger] r@[i], valid_records(analyzer.data@)[i]),
{
    analyzer.analyze_data()
}

} // verus!
