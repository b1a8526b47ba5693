use pfas_guard::analyzer::{self, Analyzer, PfasData as RowData};
use pfas_guard::calculator::{calculate_risk_score, classify_risk_category, PfasData, RiskCategory};
use pfas_guard::io_handler::{validate_input, PFASData};
use pfas_guard::models::{RiskCategory as Level, RiskReport};
use pfas_guard::scoring::{assess, Measurement, Sample, Scheme};
use pfas_guard::report::{build_reports, calculate_risk_score as advisory_score, generate_recommendation};

fn row(id: &str, pfna: i64, pfosa: i64, age: u32) -> PFASData {
    PFASData {
        sample_id: id.to_string(),
        pfna_concentration: pfna,
        pfosa_concentration: pfosa,
        age,
        gender: "M".to_string(),
    }
}

fn compound_row(id: &str, compound: &str, concentration: i64, age: u32) -> RowData {
    RowData {
        sample_id: id.to_string(),
        pfas_compound: compound.to_string(),
        concentration,
        age,
        gender: "F".to_string(),
    }
}

#[test]
fn four_band_categories_at_boundaries() {
    assert_eq!(classify_risk_category(0), RiskCategory::Low);
    assert_eq!(classify_risk_category(9_999_999), RiskCategory::Low);
    assert_eq!(classify_risk_category(10_000_000), RiskCategory::Moderate);
    assert_eq!(classify_risk_category(30_000_000), RiskCategory::High);
    assert_eq!(classify_risk_category(59_999_999), RiskCategory::High);
    assert_eq!(classify_risk_category(60_000_000), RiskCategory::VeryHigh);
}

#[test]
fn four_band_score_formula() {
    let d = PfasData { id: "A".to_string(), pfna_level: 10_000, pfosa_level: 20_000, age: 30 };
    let r = calculate_risk_score(&d);
    // 10 * 0.7 + 20 * 0.3 + 30 * 0.01
    assert_eq!(r.score, 13_300_000);
    assert_eq!(r.category, RiskCategory::Moderate);
}

#[test]
fn four_band_score_clamped() {
    let d = PfasData { id: "B".to_string(), pfna_level: 1_000_000, pfosa_level: 0, age: 1 };
    let r = calculate_risk_score(&d);
    assert_eq!(r.score, 100_000_000);
    assert_eq!(r.category, RiskCategory::VeryHigh);
}

#[test]
fn advisory_report_scenarios() {
    let data = vec![
        row("S1", 10_000, 0, 30),
        row("S2", 0, 0, 0),
        row("S3", 1_000, 1_000, 50),
        row("S4", -1_000, 2_000, 40),
    ];
    let reports = build_reports(&data);
    assert_eq!(reports.len(), 2);
    assert_eq!(reports[0].sample_id, "S1");
    assert_eq!(reports[0].risk_score, 5_300_000);
    assert!(reports[0].recommendation.contains("Consult a healthcare professional"));
    assert_eq!(reports[1].sample_id, "S3");
    assert_eq!(reports[1].risk_score, 1_700_000);
    assert!(reports[1].recommendation.starts_with("Low risk"));
}

#[test]
fn advisory_score_formula() {
    assert_eq!(advisory_score(&row("S1", 10_000, 0, 30)), 5_300_000);
    assert_eq!(advisory_score(&row("S3", 1_000, 1_000, 50)), 1_700_000);
}

#[test]
fn recommendation_boundaries() {
    assert!(generate_recommendation(5_000_000).starts_with("High risk"));
    assert!(generate_recommendation(4_999_999).starts_with("Moderate risk"));
    assert!(generate_recommendation(3_000_000).starts_with("Moderate risk"));
    assert!(generate_recommendation(2_999_999).starts_with("Low risk"));
}

#[test]
fn input_validation() {
    assert!(validate_input(&[row("a", 1, 2, 3), row("b", 0, 0, 1)]));
    assert!(!validate_input(&[row("a", 1, 2, 3), row("b", 0, 0, 0)]));
    assert!(!validate_input(&[row("a", -1, 2, 3)]));
    assert!(!validate_input(&[row("", 1, 2, 3)]));
    assert!(validate_input(&[]));
}

#[test]
fn analyzer_scores_valid_rows_in_order() {
    let mut a = analyzer::new_analyzer();
    a.load_records(vec![
        compound_row("r1", "PFNA", 2_000, 40),
        compound_row("r2", "PFHxS", 1_000, 0),
        compound_row("r3", "GenX", 0, 30),
    ]);
    a.load_records(vec![compound_row("r4", "PFOSA", 10_000, 50)]);
    assert_eq!(a.data.len(), 4);
    let out = analyzer::analyze_data(&a);
    assert_eq!(out.len(), 3);
    // (2 * 0.5 + 40 * 0.1) * 1.5
    assert_eq!(out[0].sample_id, "r1");
    assert_eq!(out[0].risk_score, 7_500_000);
    assert_eq!(out[0].compound_specific_score, 7_500_000);
    assert_eq!(out[0].risk_level, "Medium");
    // 30 * 0.1 * 1.0
    assert_eq!(out[1].sample_id, "r3");
    assert_eq!(out[1].risk_score, 3_000_000);
    assert_eq!(out[1].risk_level, "Low");
    // (10 * 0.5 + 50 * 0.1) * 1.3
    assert_eq!(out[2].risk_score, 13_000_000);
    assert_eq!(out[2].risk_level, "High");
}

#[test]
fn empty_analyzer_yields_nothing() {
    let a = Analyzer::new();
    assert!(a.analyze_data().is_empty());
}

#[test]
fn three_level_names() {
    assert_eq!(Level::from_band(0), Level::Low);
    assert_eq!(Level::from_band(1), Level::Medium);
    assert_eq!(Level::from_band(5), Level::High);
    assert_eq!(Level::High.name(), "High");
    assert_eq!(Level::Low.name(), "Low");
}

#[test]
fn report_line_from_assessment() {
    let s = Sample {
        id: "S1".to_string(),
        measurements: vec![
            Measurement { compound: "PFNA".to_string(), level: 10_000 },
            Measurement { compound: "PFOSA".to_string(), level: 0 },
        ],
        age: 30,
        gender: "F".to_string(),
    };
    let r = RiskReport::from_assessment(&assess(&s, &Scheme::advisory()));
    assert_eq!(r.sample_id, "S1");
    assert_eq!(r.risk_category, Level::High);
    assert_eq!(r.risk_score, 5_300_000);
    assert_eq!(r.recommendations.len(), 1);
    assert!(r.recommendations[0].contains("Consult a healthcare professional"));
    let none = RiskReport::from_assessment(&assess(&s, &Scheme::four_band()));
    assert_eq!(none.risk_category, Level::Low);
    assert!(none.recommendations.is_empty());
}
