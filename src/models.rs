//! Record shapes shared by reports: a per-compound sample, a report line and
//! the three-level category.
use vstd::prelude::*;
use vstd::string::StringExecFns;
use crate::scoring::RiskAssessment;

verus! {

/// One collected sample of one compound; concentration in thousandths.
pub struct PfasSample {
    pub id: String,
    pub sample_type: String,
    pub pfas_compound: String,
    pub concentration: i64,
    pub collection_date: String,
}

/// A report line: score in millionths, category and advice.
pub struct RiskReport {
    pub sample_id: String,
    pub risk_category: RiskCategory,
    pub risk_score: u64,
    pub recommendations: Vec<String>,
}

/// The three ordered categories: Low < Medium < High.
#[derive(Debug, Clone, Copy, PartialEq, Eq, Structural)]
pub enum RiskCategory {
    Low,
    Medium,
    High,
}

/// The category of a band index; bands past the second are High.
pub open spec fn category_of_band(b: int) -> RiskCategory {
    if b <= 0 {
        RiskCategory::Low
    } else if b == 1 {
        RiskCategory::Medium
    } else {
        RiskCategory::High
    }
}

/// The display name of a category.
pub open spec fn category_name(c: RiskCategory) -> Seq<char> {
    match c {
        RiskCategory::Low => "Low"@,
        RiskCategory::Medium => "Medium"@,
        RiskCategory::High => "High"@,
    }
}

impl RiskCategory {
    /// The category of a band index.
    pub fn from_band(b: usize) -> (r: RiskCategory)
        ensures
            r == category_of_band(b as int),
    {
        if b == 0 {
            RiskCategory::Low
        } else if b == 1 {
            RiskCategory::Medium
        } else {
            RiskCategory::High
        }
    }

    /// The display name of the category.
    pub fn name(&self) -> (r: String)
        ensures
            r@ == category_name(*self),
    {
        match self {
            RiskCategory::Low => String::from_str("Low"),
            RiskCategory::Medium => String::from_str("Medium"),
            RiskCategory::High => String::from_str("High"),
        }
    }
}

impl RiskReport {
    /// The report line of an assessment made under a three-band scheme: its
    /// band becomes the category and its advice, if any, the only recommendation.
    pub fn from_assessment(a: &RiskAssessment) -> (r: RiskReport)
        ensures
            r.sample_id@ == a.id@,
            r.risk_category == category_of_band(a.band as int),
            r.risk_score == a.score,
            match a.recommendation {
                Some(t) => r.recommendations@.len() == 1 && r.recommendations@[0]@ == t@,
                None => r.recommendations@.len() == 0,
            },
    {
        let mut recommendations: Vec<String> = Vec::new();
        match &a.recommendation {
            Some(t) => recommendations.push(t.clone()),
            None => {},
        }
        RiskReport {
            sample_id: a.id.clone(),
            risk_category: RiskCategory::from_band(a.band),
            risk_score: a.score,
            recommendations,
        }
    }
}

} // verus!
