//! The advisory report: each valid two-column row gets a score and a line of advice.
use vstd::prelude::*;
use crate::io_handler::{PFASData, to_sample, row_valid};
use crate::scoring::{
    Scheme, scheme_wf, score_sample, assess, is_valid, band, min_int, in_band, lemma_unscaled,
    lemma_pair_exposure, lemma_band_total_and_unique, LOW_ADVICE, MODERATE_ADVICE, HIGH_ADVICE,
};

verus! {

/// One report line: score in millionths and advice.
pub struct AgingRiskReport {
    pub sample_id: String,
    pub risk_score: u64,
    pub recommendation: String,
}

/// The advisory scheme's settings, as `Scheme::advisory` gives them.
pub open spec fn advisory_scheme(c: Scheme) -> bool {
    &&& c.weights@.len() == 2
    &&& c.weights@[0].compound@ == "PFNA"@ && c.weights@[0].factor == 500
    &&& c.weights@[1].compound@ == "PFOSA"@ && c.weights@[1].factor == 700
    &&& !c.scale_single_compound
    &&& c.age_coefficient == 10
    &&& c.max_score == u64::MAX
    &&& c.thresholds@ == seq![3_000_000u64, 5_000_000u64]
    &&& c.advice@.len() == 3
    &&& c.advice@[0]@ == LOW_ADVICE@
    &&& c.advice@[1]@ == MODERATE_ADVICE@
    &&& c.advice@[2]@ == HIGH_ADVICE@
}

/// Score of a row in millionths: 0.5 per PFNA unit, 0.7 per PFOSA unit and
/// 0.01 per year.
pub open spec fn row_score(d: PFASData) -> int {
    min_int(d.pfna_concentration * 500 + d.pfosa_concentration * 700 + d.age * 10_000, u64::MAX as int)
}

/// Advice for a score in millionths: high from 5, moderate from 3, low below.
pub open spec fn advice_for(score: int) -> Seq<char> {
    if score >= 5_000_000 {
        HIGH_ADVICE@
    } else if score >= 3_000_000 {
        MODERATE_ADVICE@
    } else {
        LOW_ADVICE@
    }
}

/// The valid rows, in order.
pub open spec fn valid_rows(rs: Seq<PFASData>) -> Seq<PFASData>
    decreases rs.len(),
{
    if rs.len() == 0 {
        Seq::empty()
    } else if row_valid(rs.last()) {
        valid_rows(rs.drop_last()).push(rs.last())
    } else {
        valid_rows(rs.drop_last())
    }
}

/// `r` is the report line of row `d`.
pub open spec fn reported_as(r: AgingRiskReport, d: PFASData) -> bool {
    &&& r.sample_id@ == d.sample_id@
    &&& r.risk_score == row_score(d)
    &&& r.recommendation@ == advice_for(r.risk_score as int)
}

/// Scores a row with non-negative concentrations.
pub fn calculate_risk_score(data: &PFASData) -> (r: u64)
    requires
        data.pfna_concentration >= 0,
        data.pfosa_concentration >= 0,
    ensures
        r == row_score(*data),
{
    let sample = to_sample(data);
    let scheme = Scheme::advisory();
    proof {
        lemma_pair_exposure(sample.measurements@, scheme.weights@, scheme.default_weight);
        lemma_unscaled(sample, scheme);
    }
    score_sample(&sample, &scheme)
}

/// The advice for a score in millionths.
pub fn generate_recommendation(risk_score: u64) -> (r: String)
    ensures
        r@ == advice_for(risk_score as int),
{
    let scheme = Scheme::advisory();
    let b = band(&scheme.thresholds, risk_score);
    scheme.advice[b].clone()
}

/// The report lines of the valid rows, in order; invalid rows are left out.
pub fn build_reports(data: &Vec<PFASData>) -> (r: Vec<AgingRiskReport>)
    ensures
        r@.len() == valid_rows(data@).len(),
        forall|i: int| 0 <= i < r@.len() ==> reported_as(#[trigger] r@[i], valid_rows(data@)[i]),
{
    let scheme = Scheme::advisory();
    let mut out: Vec<AgingRiskReport> = Vec::new();
    let mut i: usize = 0;
    while i < data.len()
        invariant
            i <= data@.len(),
            advisory_scheme(scheme),
            scheme_wf(scheme),
            out@.len() == valid_rows(data@.subrange(0, i as int)).len(),
            forall|j: int| 0 <= j < out@.len() ==> reported_as(
                #[trigger] out@[j],
                valid_rows(data@.subrange(0, i as int))[j],
            ),
        decreases data.len() - i,
    {
        let d = &data[i];
        assert(data@.subrange(0, i + 1).drop_last() =~= data@.subrange(0, i as int));
        assert(data@.subrange(0, i + 1).last() == data@[i as int]);
        let sample = to_sample(d);
        if is_valid(&sample) {
            proof {
                lemma_pair_exposure(sample.measurements@, scheme.weights@, scheme.default_weight);
                lemma_unscaled(sample, scheme);
            }
            let a = assess(&sample, &scheme);
            proof {
                lemma_band_total_and_unique(scheme.thresholds@, a.score as int, 0);
                assert(in_band(scheme.thresholds@, a.score as int, a.band as int));
            }
            let recommendation = match a.recommendation {
                Some(t) => t,
                None => generate_recommendation(a.score),
            };
            out.push(AgingRiskReport { sample_id: a.id, risk_score: a.score, recommendation });
        }
        i = i + 1;
    }
    assert(data@.subrange(0, i as int) =~= data@);
    out
}

} // verus!
