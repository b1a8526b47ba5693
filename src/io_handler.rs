//! Row shapes of the two-column input file and of the written report, and the
//! check that a whole input is fit for scoring.
use vstd::prelude::*;
use vstd::string::StringExecFns;
use crate::scoring::{Sample, Measurement, sample_valid, levels_nonnegative, is_valid};

verus! {

/// One input row: PFNA and PFOSA concentrations in thousandths.
pub struct PFASData {
    pub sample_id: String,
    pub pfna_concentration: i64,
    pub pfosa_concentration: i64,
    pub age: u32,
    pub gender: String,
}

/// One written row: score in millionths, levels in thousandths.
pub struct ReportData {
    pub sample_id: String,
    pub aging_risk_score: u64,
    pub pfna_level: i64,
    pub pfosa_level: i64,
}

/// A row may be scored: identifier present, age above zero, no negative level.
pub open spec fn row_valid(d: PFASData) -> bool {
    d.sample_id@.len() > 0 && d.age > 0 && d.pfna_concentration >= 0 && d.pfosa_concentration >= 0
}

/// The sample that a row stands for.
pub fn to_sample(d: &PFASData) -> (r: Sample)
    ensures
        r.id@ == d.sample_id@,
        r.age == d.age,
        r.gender@ == d.gender@,
        r.measurements@.len() == 2,
        r.measurements@[0].compound@ == "PFNA"@,
        r.measurements@[0].level == d.pfna_concentration,
        r.measurements@[1].compound@ == "PFOSA"@,
        r.measurements@[1].level == d.pfosa_concentration,
        sample_valid(r) == row_valid(*d),
{
    let mut measurements: Vec<Measurement> = Vec::new();
    measurements.push(
        Measurement { compound: String::from_str("PFNA"), level: d.pfna_concentration },
    );
    measurements.push(
        Measurement { compound: String::from_str("PFOSA"), level: d.pfosa_concentration },
    );
    let r = Sample { id: d.sample_id.clone(), measurements, age: d.age, gender: d.gender.clone() };
    proof {
        let ms = r.measurements@;
        if levels_nonnegative(ms) {
            assert(ms[0].level >= 0 && ms[1].level >= 0);
        }
    }
    r
}

/// Whether every row may be scored.
pub fn validate_input(data: &[PFASData]) -> (r: bool)
    ensures
        r == forall|i: int| 0 <= i < data@.len() ==> row_valid(#[trigger] data@[i]),
{
    let mut i: usize = 0;
    while i < data.len()
        invariant
            i <= data@.len(),
            forall|j: int| 0 <= j < i ==> row_valid(#[trigger] data@[j]),
        decreases data.len() - i,
    {
        let s = to_sample(&data[i]);
        if !is_valid(&s) {
            return false;
        }
        i = i + 1;
    }
    true
}

} // verus!
