//! The risk-scoring engine: validation, weighted exposure, clamping and banding.
use vstd::prelude::*;
use vstd::string::{StrSliceExecFns, StringExecFns};

verus! {

/// Thousandths: the scale of concentrations, weights, multipliers and age coefficients.
pub const MILLI: u64 = 1000;

/// Upper bound on intermediate sums while scoring; far above any `u64` score
/// even after the smallest nonzero multiplier.
pub const SUM_CAP: u128 = 0x1_0000_0000_0000_0000_0000;

/// A compound name with a fixed-point factor (thousandths).
pub struct CompoundFactor {
    pub compound: String,
    pub factor: u32,
}

/// The factor that `table` assigns to `name`: the first matching entry, else `default`.
pub open spec fn factor_of(table: Seq<CompoundFactor>, name: Seq<char>, default: u32) -> u32
    decreases table.len(),
{
    if table.len() == 0 {
        default
    } else if table[0].compound@ == name {
        table[0].factor
    } else {
        factor_of(table.drop_first(), name, default)
    }
}

/// Looks `name` up in `table`, falling back to `default`.
pub fn lookup_factor(table: &Vec<CompoundFactor>, name: &String, default: u32) -> (r: u32)
    ensures
        r == factor_of(table@, name@, default),
{
    let mut i: usize = 0;
    assert(table@.subrange(0, table@.len() as int) =~= table@);
    while i < table.len()
        invariant
            i <= table@.len(),
            factor_of(table@, name@, default) == factor_of(table@.subrange(i as int, table@.len() as int), name@, default),
        decreases table.len() - i,
    {
        let ghost rest = table@.subrange(i as int, table@.len() as int);
        assert(rest.drop_first() =~= table@.subrange(i + 1, table@.len() as int));
        if table[i].compound == *name {
            return table[i].factor;
        }
        i = i + 1;
    }
    assert(table@.subrange(i as int, table@.len() as int).len() == 0);
    default
}

/// Thresholds are in ascending order.
pub open spec fn ascending(t: Seq<u64>) -> bool {
    forall|i: int, j: int| 0 <= i < j < t.len() ==> t[i] <= t[j]
}

/// `k` is the band of `x` under thresholds `t`: every threshold below `k` is at
/// most `x`, and the threshold at `k` (if any) is above `x`.
pub open spec fn in_band(t: Seq<u64>, x: int, k: int) -> bool {
    0 <= k <= t.len() && (k == 0 || t[k - 1] <= x) && (k == t.len() || x < t[k])
}

/// The index of the first threshold at or after `from` that lies above `x`, or `t.len()`.
pub open spec fn first_above(t: Seq<u64>, x: int, from: int) -> int
    decreases t.len() - from,
{
    if from < 0 || from >= t.len() {
        t.len() as int
    } else if x < t[from] {
        from
    } else {
        first_above(t, x, from + 1)
    }
}

/// The band of `x`: how many leading thresholds it reaches.
pub open spec fn band_of(t: Seq<u64>, x: int) -> int {
    first_above(t, x, 0)
}

proof fn lemma_first_above_in_band(t: Seq<u64>, x: int, from: int)
    requires
        ascending(t),
        0 <= from <= t.len(),
        forall|j: int| 0 <= j < from ==> t[j] <= x,
    ensures
        in_band(t, x, first_above(t, x, from)),
    decreases t.len() - from,
{
    if from < t.len() && x >= t[from] {
        lemma_first_above_in_band(t, x, from + 1);
    }
}

/// Every score falls in exactly one band, and a score equal to a threshold
/// belongs to the higher band.
pub proof fn lemma_band_total_and_unique(t: Seq<u64>, x: int, k: int)
    requires
        ascending(t),
    ensures
        in_band(t, x, band_of(t, x)),
        in_band(t, x, k) ==> k == band_of(t, x),
        forall|i: int| 0 <= i < t.len() && x == t[i] ==> band_of(t, x) > i,
{
    lemma_first_above_in_band(t, x, 0);
    let b = band_of(t, x);
    if in_band(t, x, k) && k != b {
        if k < b {
            assert(x < t[k]);
            assert(t[b - 1] <= x);
            assert(t[k] <= t[b - 1]);
        } else {
            assert(x < t[b]);
            assert(t[k - 1] <= x);
            assert(t[b] <= t[k - 1]);
        }
    }
    assert forall|i: int| 0 <= i < t.len() && x == t[i] implies b > i by {
        if b <= i {
            assert(x < t[b]);
            assert(t[b] <= t[i]);
        }
    }
}

/// The band of `x` under ascending thresholds `t`.
pub fn band(t: &Vec<u64>, x: u64) -> (r: usize)
    requires
        ascending(t@),
    ensures
        r == band_of(t@, x as int),
        in_band(t@, x as int, r as int),
{
    proof {
        lemma_first_above_in_band(t@, x as int, 0);
    }
    let mut k: usize = 0;
    while k < t.len()
        invariant
            k <= t@.len(),
            forall|j: int| 0 <= j < k ==> t@[j] <= x,
            first_above(t@, x as int, k as int) == band_of(t@, x as int),
        decreases t.len() - k,
    {
        if x < t[k] {
            return k;
        }
        k = k + 1;
    }
    k
}


/// One measured compound: its name and its concentration in thousandths.
pub struct Measurement {
    pub compound: String,
    pub level: i64,
}

/// One input sample: identifier, measured compounds, age in years and gender.
/// Gender is carried for reporting only and never enters the score.
pub struct Sample {
    pub id: String,
    pub measurements: Vec<Measurement>,
    pub age: u32,
    pub gender: String,
}

/// Why a sample was refused.
#[derive(PartialEq, Eq, Structural, Clone, Copy, Debug)]
pub enum Rejection {
    EmptyId,
    ZeroAge,
    NegativeConcentration,
}

/// No concentration of the sample is negative.
pub open spec fn levels_nonnegative(ms: Seq<Measurement>) -> bool {
    forall|i: int| 0 <= i < ms.len() ==> ms[i].level >= 0
}

/// The first rule that the sample breaks, in the order: identifier, age, concentrations.
pub open spec fn rejection_of(s: Sample) -> Option<Rejection> {
    if s.id@.len() == 0 {
        Some(Rejection::EmptyId)
    } else if s.age == 0 {
        Some(Rejection::ZeroAge)
    } else if !levels_nonnegative(s.measurements@) {
        Some(Rejection::NegativeConcentration)
    } else {
        None
    }
}

/// The sample may be scored.
pub open spec fn sample_valid(s: Sample) -> bool {
    rejection_of(s) is None
}

/// Checks the sample against the validation rules and names the first one broken.
pub fn check_sample(s: &Sample) -> (r: Result<(), Rejection>)
    ensures
        r is Ok <==> rejection_of(*s) is None,
        r is Err ==> rejection_of(*s) == Some(r->Err_0),
{
    if s.id.as_str().unicode_len() == 0 {
        return Err(Rejection::EmptyId);
    }
    if s.age == 0 {
        return Err(Rejection::ZeroAge);
    }
    let mut i: usize = 0;
    while i < s.measurements.len()
        invariant
            i <= s.measurements@.len(),
            s.id@.len() != 0,
            s.age != 0,
            forall|j: int| 0 <= j < i ==> s.measurements@[j].level >= 0,
        decreases s.measurements.len() - i,
    {
        if s.measurements[i].level < 0 {
            assert(!levels_nonnegative(s.measurements@)) by {
                assert(s.measurements@[i as int].level < 0);
            }
            return Err(Rejection::NegativeConcentration);
        }
        i = i + 1;
    }
    Ok(())
}

/// Whether the sample passes validation.
pub fn is_valid(s: &Sample) -> (r: bool)
    ensures
        r == sample_valid(*s),
{
    check_sample(s).is_ok()
}

/// A scoring configuration: weights, age coefficient, optional single-compound
/// scaling, the maximum score, band thresholds and per-band advice.
pub struct Scheme {
    /// Weight of each known compound, in thousandths.
    pub weights: Vec<CompoundFactor>,
    /// Weight of a compound missing from `weights`, in thousandths.
    pub default_weight: u32,
    /// Whether a sample with exactly one measurement has its score scaled by
    /// that compound's multiplier.
    pub scale_single_compound: bool,
    /// Multiplier of each known compound, in thousandths.
    pub multipliers: Vec<CompoundFactor>,
    /// Multiplier of a compound missing from `multipliers`, in thousandths.
    pub default_multiplier: u32,
    /// Score added per year of age, in thousandths.
    pub age_coefficient: u32,
    /// The largest score reported, in millionths.
    pub max_score: u64,
    /// Ascending lower bounds of bands one and up, in millionths.
    pub thresholds: Vec<u64>,
    /// Advice text for each band; a band without an entry gets none.
    pub advice: Vec<String>,
}

/// The scheme is usable: its thresholds ascend.
pub open spec fn scheme_wf(c: Scheme) -> bool {
    ascending(c.thresholds@)
}

/// Weighted sum of concentrations, in millionths.
pub open spec fn exposure(ms: Seq<Measurement>, weights: Seq<CompoundFactor>, default: u32) -> int
    decreases ms.len(),
{
    if ms.len() == 0 {
        0
    } else {
        exposure(ms.drop_last(), weights, default) + ms.last().level * factor_of(
            weights,
            ms.last().compound@,
            default,
        )
    }
}

/// Contribution of age, in millionths.
pub open spec fn age_part(age: u32, c: Scheme) -> int {
    age * c.age_coefficient * MILLI
}

/// Exposure plus age, before scaling and clamping.
pub open spec fn base_score(s: Sample, c: Scheme) -> int {
    exposure(s.measurements@, c.weights@, c.default_weight) + age_part(s.age, c)
}

/// Multiplier applied to the base score: that of the single compound when the
/// scheme scales single-compound samples, else one.
pub open spec fn multiplier_of(s: Sample, c: Scheme) -> int {
    if c.scale_single_compound && s.measurements@.len() == 1 {
        factor_of(c.multipliers@, s.measurements@[0].compound@, c.default_multiplier) as int
    } else {
        MILLI as int
    }
}

/// The base score scaled by the multiplier (rounded down to a millionth).
pub open spec fn scaled_score(s: Sample, c: Scheme) -> int {
    base_score(s, c) * multiplier_of(s, c) / (MILLI as int)
}

/// The smaller of two integers.
pub open spec fn min_int(a: int, b: int) -> int {
    if a <= b { a } else { b }
}

/// The reported score: the scaled score capped at the scheme's maximum.
pub open spec fn risk_score(s: Sample, c: Scheme) -> int {
    min_int(scaled_score(s, c), c.max_score as int)
}

/// The band of the reported score.
pub open spec fn risk_band(s: Sample, c: Scheme) -> int {
    band_of(c.thresholds@, risk_score(s, c))
}

/// Exposure of a PFNA reading followed by a PFOSA reading under a table that
/// weighs PFNA first and PFOSA second.
pub proof fn lemma_pair_exposure(ms: Seq<Measurement>, w: Seq<CompoundFactor>, d: u32)
    requires
        ms.len() == 2,
        ms[0].compound@ == "PFNA"@,
        ms[1].compound@ == "PFOSA"@,
        w.len() == 2,
        w[0].compound@ == "PFNA"@,
        w[1].compound@ == "PFOSA"@,
    ensures
        exposure(ms, w, d) == ms[0].level * w[0].factor + ms[1].level * w[1].factor,
{
    reveal_strlit("PFNA");
    reveal_strlit("PFOSA");
    assert("PFNA"@ != "PFOSA"@) by {
        assert("PFNA"@[3] != "PFOSA"@[3]);
    }
    let head = ms.drop_last();
    assert(head.drop_last() =~= Seq::<Measurement>::empty());
    assert(head.last() == ms[0]);
    assert(ms.last() == ms[1]);
    assert(exposure(head.drop_last(), w, d) == 0);
    assert(factor_of(w, "PFNA"@, d) == w[0].factor);
    assert(w.drop_first()[0] == w[1]);
    assert(factor_of(w.drop_first(), "PFOSA"@, d) == w[1].factor);
    assert(factor_of(w, "PFOSA"@, d) == w[1].factor);
    assert(exposure(head, w, d) == ms[0].level * w[0].factor);
}

/// Without scaling the scaled score is the base score.
pub proof fn lemma_unscaled(s: Sample, c: Scheme)
    requires
        !c.scale_single_compound || s.measurements@.len() != 1,
    ensures
        scaled_score(s, c) == base_score(s, c),
{
    let b = base_score(s, c);
    vstd::arithmetic::div_mod::lemma_div_multiples_vanish(b, 1000);
    assert(b * 1000 == 1000 * b);
}

proof fn lemma_scale_capped(b: int, m: int, max: int)
    requires
        0 <= b,
        0 <= m < 0x1_0000_0000,
        0 <= max < 0x1_0000_0000_0000_0000,
    ensures
        min_int(min_int(b, SUM_CAP as int) * m / 1000, max) == min_int(b * m / 1000, max),
{
    if b > SUM_CAP as int && m > 0 {
        let c = SUM_CAP as int;
        assert(c * m >= c) by (nonlinear_arith) requires m >= 1, c >= 0;
        assert(b * m >= c * m) by (nonlinear_arith) requires b >= c, m >= 0;
        vstd::arithmetic::div_mod::lemma_div_is_ordered(c, c * m, 1000);
        vstd::arithmetic::div_mod::lemma_div_is_ordered(c * m, b * m, 1000);
        assert(c / 1000 >= max);
    }
}

/// Computes the risk score of a sample with non-negative concentrations.
pub fn score_sample(s: &Sample, c: &Scheme) -> (r: u64)
    requires
        levels_nonnegative(s.measurements@),
    ensures
        r == risk_score(*s, *c),
{
    let ms = &s.measurements;
    let age: u128 = s.age as u128;
    let coef: u128 = c.age_coefficient as u128;
    assert(age * coef <= 0xffff_ffff * 0xffff_ffff) by (nonlinear_arith)
        requires age <= 0xffff_ffff, coef <= 0xffff_ffff;
    let mut acc: u128 = age * coef * 1000;
    let mut i: usize = 0;
    assert(ms@.subrange(0, 0) =~= Seq::<Measurement>::empty());
    while i < ms.len()
        invariant
            i <= ms@.len(),
            ms == s.measurements,
            levels_nonnegative(ms@),
            acc == min_int(
                exposure(ms@.subrange(0, i as int), c.weights@, c.default_weight) + age_part(s.age, *c),
                SUM_CAP as int,
            ),
        decreases ms.len() - i,
    {
        let m = &ms[i];
        let w = lookup_factor(&c.weights, &m.compound, c.default_weight);
        let lv: u128 = m.level as u128;
        let wv: u128 = w as u128;
        assert(lv * wv <= 0x7fff_ffff_ffff_ffff * 0xffff_ffff) by (nonlinear_arith)
            requires lv <= 0x7fff_ffff_ffff_ffff, wv <= 0xffff_ffff;
        let term: u128 = lv * wv;
        assert(ms@.subrange(0, i + 1).drop_last() =~= ms@.subrange(0, i as int));
        acc = if acc + term > SUM_CAP { SUM_CAP } else { acc + term };
        i = i + 1;
    }
    assert(ms@.subrange(0, i as int) =~= ms@);
    let mult: u32 = if c.scale_single_compound && ms.len() == 1 {
        lookup_factor(&c.multipliers, &ms[0].compound, c.default_multiplier)
    } else {
        1000
    };
    let mv: u128 = mult as u128;
    assert(acc * mv <= SUM_CAP * 0xffff_ffff) by (nonlinear_arith)
        requires acc <= SUM_CAP, mv <= 0xffff_ffff;
    let scaled: u128 = acc * mv / 1000;
    proof {
        lemma_scale_capped(base_score(*s, *c), mult as int, c.max_score as int);
    }
    if scaled > c.max_score as u128 {
        c.max_score
    } else {
        scaled as u64
    }
}


/// The result of scoring one valid sample.
pub struct RiskAssessment {
    pub id: String,
    /// Score in millionths.
    pub score: u64,
    /// Band index: zero is the lowest category.
    pub band: usize,
    /// Advice for the band, where the scheme has one.
    pub recommendation: Option<String>,
}

/// A sample left out of scoring, and why.
pub struct InvalidSample {
    pub id: String,
    pub reason: Rejection,
}

/// The outcome of a batch: assessments of the valid samples and the refusals,
/// each in input order.
pub struct Batch {
    pub assessments: Vec<RiskAssessment>,
    pub rejected: Vec<InvalidSample>,
}

/// `a` is the assessment of `s` under `c`.
pub open spec fn assessment_of(a: RiskAssessment, s: Sample, c: Scheme) -> bool {
    &&& a.id@ == s.id@
    &&& a.score == risk_score(s, c)
    &&& a.band == risk_band(s, c)
    &&& match a.recommendation {
        Some(t) => a.band < c.advice@.len() && t@ == c.advice@[a.band as int]@,
        None => a.band >= c.advice@.len(),
    }
}

/// The valid samples of `ss`, in order.
pub open spec fn kept(ss: Seq<Sample>) -> Seq<Sample>
    decreases ss.len(),
{
    if ss.len() == 0 {
        Seq::empty()
    } else if sample_valid(ss.last()) {
        kept(ss.drop_last()).push(ss.last())
    } else {
        kept(ss.drop_last())
    }
}

/// The invalid samples of `ss`, in order.
pub open spec fn refused(ss: Seq<Sample>) -> Seq<Sample>
    decreases ss.len(),
{
    if ss.len() == 0 {
        Seq::empty()
    } else if sample_valid(ss.last()) {
        refused(ss.drop_last())
    } else {
        refused(ss.drop_last()).push(ss.last())
    }
}

/// Scores a valid sample and picks its band and advice.
pub fn assess(s: &Sample, c: &Scheme) -> (r: RiskAssessment)
    requires
        sample_valid(*s),
        scheme_wf(*c),
    ensures
        assessment_of(r, *s, *c),
{
    let score = score_sample(s, c);
    let b = band(&c.thresholds, score);
    let recommendation = if b < c.advice.len() {
        Some(c.advice[b].clone())
    } else {
        None
    };
    RiskAssessment { id: s.id.clone(), score, band: b, recommendation }
}

/// Validates every sample, scores the valid ones and lists the refused ones.
pub fn assess_all(samples: &Vec<Sample>, c: &Scheme) -> (r: Batch)
    requires
        scheme_wf(*c),
    ensures
        r.assessments@.len() == kept(samples@).len(),
        forall|i: int|
            0 <= i < r.assessments@.len() ==> assessment_of(
                #[trigger] r.assessments@[i],
                kept(samples@)[i],
                *c,
            ),
        r.rejected@.len() == refused(samples@).len(),
        forall|i: int|
            0 <= i < r.rejected@.len() ==> (#[trigger] r.rejected@[i]).id@ == refused(samples@)[i].id@
                && rejection_of(refused(samples@)[i]) == Some(r.rejected@[i].reason),
{
    let mut assessments: Vec<RiskAssessment> = Vec::new();
    let mut rejected: Vec<InvalidSample> = Vec::new();
    let mut i: usize = 0;
    while i < samples.len()
        invariant
            i <= samples@.len(),
            scheme_wf(*c),
            assessments@.len() == kept(samples@.subrange(0, i as int)).len(),
            forall|j: int|
                0 <= j < assessments@.len() ==> assessment_of(
                    #[trigger] assessments@[j],
                    kept(samples@.subrange(0, i as int))[j],
                    *c,
                ),
            rejected@.len() == refused(samples@.subrange(0, i as int)).len(),
            forall|j: int|
                0 <= j < rejected@.len() ==> (#[trigger] rejected@[j]).id@ == refused(
                    samples@.subrange(0, i as int),
                )[j].id@ && rejection_of(refused(samples@.subrange(0, i as int))[j]) == Some(
                    rejected@[j].reason,
                ),
        decreases samples.len() - i,
    {
        let s = &samples[i];
        assert(samples@.subrange(0, i + 1).drop_last() =~= samples@.subrange(0, i as int));
        assert(samples@.subrange(0, i + 1).last() == samples@[i as int]);
        match check_sample(s) {
            Ok(()) => {
                let a = assess(s, c);
                assessments.push(a);
            },
            Err(reason) => {
                rejected.push(InvalidSample { id: s.id.clone(), reason });
            },
        }
        i = i + 1;
    }
    assert(samples@.subrange(0, i as int) =~= samples@);
    Batch { assessments, rejected }
}


fn named_factor(name: &str, factor: u32) -> (r: CompoundFactor)
    ensures
        r.compound@ == name@,
        r.factor == factor,
{
    CompoundFactor { compound: String::from_str(name), factor }
}

impl Scheme {
    /// One compound per row: every compound weighs one half, age adds one tenth
    /// per year, and the score is scaled by the compound's multiplier (PFNA 1.5,
    /// PFOSA 1.3, PFHxS 1.1, others 1.0). Bands: Low, Medium from 4, High from 8.
    /// No cap below the largest representable score.
    pub fn compound_row() -> (r: Scheme)
        ensures
            scheme_wf(r),
            r.weights@.len() == 0,
            r.default_weight == 500,
            r.scale_single_compound,
            r.multipliers@.len() == 3,
            r.multipliers@[0].compound@ == "PFNA"@ && r.multipliers@[0].factor == 1500,
            r.multipliers@[1].compound@ == "PFOSA"@ && r.multipliers@[1].factor == 1300,
            r.multipliers@[2].compound@ == "PFHxS"@ && r.multipliers@[2].factor == 1100,
            r.default_multiplier == 1000,
            r.age_coefficient == 100,
            r.max_score == u64::MAX,
            r.thresholds@ == seq![4_000_000u64, 8_000_000u64],
            r.advice@.len() == 0,
    {
        let mut multipliers: Vec<CompoundFactor> = Vec::new();
        multipliers.push(named_factor("PFNA", 1500));
        multipliers.push(named_factor("PFOSA", 1300));
        multipliers.push(named_factor("PFHxS", 1100));
        let mut thresholds: Vec<u64> = Vec::new();
        thresholds.push(4_000_000);
        thresholds.push(8_000_000);
        assert(thresholds@ =~= seq![4_000_000u64, 8_000_000u64]);
        Scheme {
            weights: Vec::new(),
            default_weight: 500,
            scale_single_compound: true,
            multipliers,
            default_multiplier: 1000,
            age_coefficient: 100,
            max_score: u64::MAX,
            thresholds,
            advice: Vec::new(),
        }
    }

    /// Two columns, PFNA weighing 0.7 and PFOSA 0.3, age adding one hundredth per
    /// year, capped at 100. Bands: Low, Moderate from 10, High from 30, VeryHigh from 60.
    pub fn four_band() -> (r: Scheme)
        ensures
            scheme_wf(r),
            r.weights@.len() == 2,
            r.weights@[0].compound@ == "PFNA"@ && r.weights@[0].factor == 700,
            r.weights@[1].compound@ == "PFOSA"@ && r.weights@[1].factor == 300,
            r.default_weight == 1000,
            !r.scale_single_compound,
            r.age_coefficient == 10,
            r.max_score == 100_000_000,
            r.thresholds@ == seq![10_000_000u64, 30_000_000u64, 60_000_000u64],
            r.advice@.len() == 0,
    {
        let mut weights: Vec<CompoundFactor> = Vec::new();
        weights.push(named_factor("PFNA", 700));
        weights.push(named_factor("PFOSA", 300));
        let mut thresholds: Vec<u64> = Vec::new();
        thresholds.push(10_000_000);
        thresholds.push(30_000_000);
        thresholds.push(60_000_000);
        assert(thresholds@ =~= seq![10_000_000u64, 30_000_000u64, 60_000_000u64]);
        Scheme {
            weights,
            default_weight: 1000,
            scale_single_compound: false,
            multipliers: Vec::new(),
            default_multiplier: 1000,
            age_coefficient: 10,
            max_score: 100_000_000,
            thresholds,
            advice: Vec::new(),
        }
    }

    /// Two columns, PFNA weighing 0.5 and PFOSA 0.7, age adding one hundredth per
    /// year, no cap below the largest representable score. Bands: Low, Moderate
    /// from 3, High from 5, each with its advice.
    pub fn advisory() -> (r: Scheme)
        ensures
            scheme_wf(r),
            r.weights@.len() == 2,
            r.weights@[0].compound@ == "PFNA"@ && r.weights@[0].factor == 500,
            r.weights@[1].compound@ == "PFOSA"@ && r.weights@[1].factor == 700,
            r.default_weight == 1000,
            !r.scale_single_compound,
            r.age_coefficient == 10,
            r.max_score == u64::MAX,
            r.thresholds@ == seq![3_000_000u64, 5_000_000u64],
            r.advice@.len() == 3,
            r.advice@[0]@ == LOW_ADVICE@,
            r.advice@[1]@ == MODERATE_ADVICE@,
            r.advice@[2]@ == HIGH_ADVICE@,
    {
        let mut weights: Vec<CompoundFactor> = Vec::new();
        weights.push(named_factor("PFNA", 500));
        weights.push(named_factor("PFOSA", 700));
        let mut thresholds: Vec<u64> = Vec::new();
        thresholds.push(3_000_000);
        thresholds.push(5_000_000);
        assert(thresholds@ =~= seq![3_000_000u64, 5_000_000u64]);
        let mut advice: Vec<String> = Vec::new();
        advice.push(String::from_str(LOW_ADVICE));
        advice.push(String::from_str(MODERATE_ADVICE));
        advice.push(String::from_str(HIGH_ADVICE));
        Scheme {
            weights,
            default_weight: 1000,
            scale_single_compound: false,
            multipliers: Vec::new(),
            default_multiplier: 1000,
            age_coefficient: 10,
            max_score: u64::MAX,
            thresholds,
            advice,
        }
    }
}

pub const LOW_ADVICE: &'static str = "Low risk. Maintain current exposure levels.";

pub const MODERATE_ADVICE: &'static str = "Moderate risk. Consider reducing exposure sources.";

pub const HIGH_ADVICE: &'static str = "High risk detected. Consult a healthcare professional.";

} // verus!
