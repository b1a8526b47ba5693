use pfas_guard::scoring::{
    assess, assess_all, band, check_sample, is_valid, lookup_factor, score_sample, CompoundFactor,
    Measurement, Rejection, Sample, Scheme, HIGH_ADVICE, LOW_ADVICE, MODERATE_ADVICE,
};

fn pair(id: &str, pfna: i64, pfosa: i64, age: u32) -> Sample {
    Sample {
        id: id.to_string(),
        measurements: vec![
            Measurement { compound: "PFNA".to_string(), level: pfna },
            Measurement { compound: "PFOSA".to_string(), level: pfosa },
        ],
        age,
        gender: "F".to_string(),
    }
}

#[test]
fn scenario_high_risk_sample() {
    let a = assess(&pair("S1", 10_000, 0, 30), &Scheme::advisory());
    assert_eq!(a.id, "S1");
    assert_eq!(a.score, 5_300_000);
    assert_eq!(a.band, 2);
    let text = a.recommendation.unwrap();
    assert!(text.contains("Consult a healthcare professional"));
}

#[test]
fn scenario_low_risk_sample() {
    let a = assess(&pair("S3", 1_000, 1_000, 50), &Scheme::advisory());
    assert_eq!(a.score, 1_700_000);
    assert_eq!(a.band, 0);
    assert_eq!(a.recommendation.unwrap(), LOW_ADVICE);
}

#[test]
fn scenario_batch_rejects_zero_age_and_negative_level() {
    let samples = vec![
        pair("S1", 10_000, 0, 30),
        pair("S2", 0, 0, 0),
        pair("S3", 1_000, 1_000, 50),
        pair("S4", -1_000, 2_000, 40),
    ];
    let out = assess_all(&samples, &Scheme::advisory());
    assert_eq!(out.assessments.len(), 2);
    assert_eq!(out.assessments[0].id, "S1");
    assert_eq!(out.assessments[1].id, "S3");
    assert_eq!(out.rejected.len(), 2);
    assert_eq!(out.rejected[0].id, "S2");
    assert_eq!(out.rejected[0].reason, Rejection::ZeroAge);
    assert_eq!(out.rejected[1].id, "S4");
    assert_eq!(out.rejected[1].reason, Rejection::NegativeConcentration);
}

#[test]
fn rejection_reasons() {
    assert_eq!(check_sample(&pair("", 1, 1, 3)), Err(Rejection::EmptyId));
    assert_eq!(check_sample(&pair("x", 1, 1, 0)), Err(Rejection::ZeroAge));
    assert_eq!(check_sample(&pair("x", 1, -1, 3)), Err(Rejection::NegativeConcentration));
    assert_eq!(check_sample(&pair("x", 0, 0, 3)), Ok(()));
    assert!(!is_valid(&pair("x", 1, 1, 0)));
    assert!(is_valid(&pair("x", 1, 1, 1)));
}

#[test]
fn scoring_twice_gives_same_result() {
    let s = pair("D", 12_345, 6_789, 41);
    let c = Scheme::four_band();
    let a = assess(&s, &c);
    let b = assess(&s, &c);
    assert_eq!(a.score, b.score);
    assert_eq!(a.band, b.band);
}

#[test]
fn raising_one_level_never_lowers_score() {
    let c = Scheme::advisory();
    let mut prev = 0u64;
    for pfosa in [0i64, 1, 500, 1_000, 50_000, 1_000_000] {
        let s = score_sample(&pair("M", 2_000, pfosa, 20), &c);
        assert!(s >= prev);
        prev = s;
    }
}

#[test]
fn score_is_capped_at_maximum() {
    let c = Scheme::four_band();
    let s = score_sample(&pair("X", i64::MAX, i64::MAX, u32::MAX), &c);
    assert_eq!(s, 100_000_000);
    let a = assess(&pair("X", i64::MAX, 0, 1), &c);
    assert_eq!(a.score, 100_000_000);
    assert_eq!(a.band, 3);
}

#[test]
fn uncapped_scheme_saturates_at_largest_score() {
    let s = score_sample(&pair("X", i64::MAX, i64::MAX, u32::MAX), &Scheme::advisory());
    assert_eq!(s, u64::MAX);
}

#[test]
fn zero_reading_scores_zero() {
    let s = Sample { id: "z".to_string(), measurements: vec![], age: 0, gender: String::new() };
    assert_eq!(score_sample(&s, &Scheme::four_band()), 0);
}

#[test]
fn threshold_value_belongs_to_higher_band() {
    let t = vec![3_000_000u64, 5_000_000];
    assert_eq!(band(&t, 0), 0);
    assert_eq!(band(&t, 2_999_999), 0);
    assert_eq!(band(&t, 3_000_000), 1);
    assert_eq!(band(&t, 4_999_999), 1);
    assert_eq!(band(&t, 5_000_000), 2);
    assert_eq!(band(&t, u64::MAX), 2);
    assert_eq!(band(&vec![], 7), 0);
}

#[test]
fn factor_lookup_takes_first_match_or_default() {
    let table = vec![
        CompoundFactor { compound: "PFNA".to_string(), factor: 1500 },
        CompoundFactor { compound: "PFNA".to_string(), factor: 9 },
        CompoundFactor { compound: "PFHxS".to_string(), factor: 1100 },
    ];
    assert_eq!(lookup_factor(&table, &"PFNA".to_string(), 1000), 1500);
    assert_eq!(lookup_factor(&table, &"PFHxS".to_string(), 1000), 1100);
    assert_eq!(lookup_factor(&table, &"GenX".to_string(), 1000), 1000);
    assert_eq!(lookup_factor(&vec![], &"PFNA".to_string(), 7), 7);
}

#[test]
fn unknown_compound_uses_default_weight() {
    let s = Sample {
        id: "u".to_string(),
        measurements: vec![Measurement { compound: "GenX".to_string(), level: 2_000 }],
        age: 10,
        gender: String::new(),
    };
    // 2.0 * 1.0 + 10 * 0.01
    assert_eq!(score_sample(&s, &Scheme::advisory()), 2_100_000);
}

#[test]
fn single_compound_scaling_by_multiplier() {
    let s = Sample {
        id: "r".to_string(),
        measurements: vec![Measurement { compound: "PFOSA".to_string(), level: 2_000 }],
        age: 40,
        gender: String::new(),
    };
    // (2.0 * 0.5 + 40 * 0.1) * 1.3
    assert_eq!(score_sample(&s, &Scheme::compound_row()), 6_500_000);
}

#[test]
fn advice_texts_by_band() {
    let c = Scheme::advisory();
    assert_eq!(assess(&pair("a", 0, 0, 1), &c).recommendation.unwrap(), LOW_ADVICE);
    assert_eq!(assess(&pair("b", 7_000, 0, 1), &c).recommendation.unwrap(), MODERATE_ADVICE);
    assert_eq!(assess(&pair("c", 0, 10_000, 1), &c).recommendation.unwrap(), HIGH_ADVICE);
    assert!(assess(&pair("d", 0, 0, 1), &Scheme::four_band()).recommendation.is_none());
}
