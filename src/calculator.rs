//! Two-column scoring with four categories: PFNA and PFOSA levels plus age,
//! capped at 100.
use vstd::prelude::*;
use vstd::string::StringExecFns;
use crate::scoring::{Sample, Measurement, Scheme, score_sample, band, min_int, lemma_unscaled, lemma_pair_exposure};

verus! {

/// One row: sample identifier, PFNA and PFOSA concentrations (thousandths) and age.
pub struct PfasData {
    pub id: String,
    pub pfna_level: i64,
    pub pfosa_level: i64,
    pub age: u32,
}

/// The four ordered categories of this scheme.
#[derive(Debug, Clone, Copy, PartialEq, Eq, Structural)]
pub enum RiskCategory {
    Low,
    Moderate,
    High,
    VeryHigh,
}

/// A score (millionths) with its category.
#[derive(Debug, Clone, Copy, PartialEq, Eq, Structural)]
pub struct RiskScore {
    pub score: u64,
    pub category: RiskCategory,
}

/// Category of a score in millionths: Low below 10, Moderate below 30, High
/// below 60, VeryHigh from 60 on.
pub open spec fn category_for(score: int) -> RiskCategory {
    if score < 10_000_000 {
        RiskCategory::Low
    } else if score < 30_000_000 {
        RiskCategory::Moderate
    } else if score < 60_000_000 {
        RiskCategory::High
    } else {
        RiskCategory::VeryHigh
    }
}

/// Score in millionths: 0.7 per PFNA unit, 0.3 per PFOSA unit, 0.01 per year,
/// capped at 100.
pub open spec fn score_for(d: PfasData) -> int {
    min_int(d.pfna_level * 700 + d.pfosa_level * 300 + d.age * 10_000, 100_000_000)
}

/// The sample that a row stands for.
pub fn to_sample(d: &PfasData) -> (r: Sample)
    ensures
        r.id@ == d.id@,
        r.age == d.age,
        r.measurements@.len() == 2,
        r.measurements@[0].compound@ == "PFNA"@,
        r.measurements@[0].level == d.pfna_level,
        r.measurements@[1].compound@ == "PFOSA"@,
        r.measurements@[1].level == d.pfosa_level,
{
    let mut measurements: Vec<Measurement> = Vec::new();
    measurements.push(Measurement { compound: String::from_str("PFNA"), level: d.pfna_level });
    measurements.push(Measurement { compound: String::from_str("PFOSA"), level: d.pfosa_level });
    Sample { id: d.id.clone(), measurements, age: d.age, gender: String::new() }
}

/// Category of a score in millionths, by the scheme's thresholds.
pub fn classify_risk_category(score: u64) -> (r: RiskCategory)
    ensures
        r == category_for(score as int),
{
    let scheme = Scheme::four_band();
    let b = band(&scheme.thresholds, score);
    if b == 0 {
        RiskCategory::Low
    } else if b == 1 {
        RiskCategory::Moderate
    } else if b == 2 {
        RiskCategory::High
    } else {
        RiskCategory::VeryHigh
    }
}

/// Scores a row with non-negative concentrations.
pub fn calculate_risk_score(data: &PfasData) -> (r: RiskScore)
    requires
        data.pfna_level >= 0,
        data.pfosa_level >= 0,
    ensures
        r.score == score_for(*data),
        r.category == category_for(r.score as int),
{
    let sample = to_sample(data);
    let scheme = Scheme::four_band();
    proof {
        lemma_pair_exposure(sample.measurements@, scheme.weights@, scheme.default_weight);
        lemma_unscaled(sample, scheme);
    }
    let score = score_sample(&sample, &scheme);
    RiskScore { score, category: classify_risk_category(score) }
}

} // verus!
