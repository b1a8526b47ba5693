//! Properties of the scoring engine that relate several samples or calls.
use vstd::prelude::*;
use crate::scoring::{
    Sample, Scheme, Measurement, CompoundFactor, exposure, base_score, multiplier_of, risk_score,
    risk_band, levels_nonnegative, sample_valid, kept, refused, factor_of,
};

verus! {

/// Two samples carry the same reading: same age and the same compounds with
/// the same concentrations, in the same order.
pub open spec fn same_reading(a: Sample, b: Sample) -> bool {
    &&& a.age == b.age
    &&& a.measurements@.len() == b.measurements@.len()
    &&& forall|i: int|
        0 <= i < a.measurements@.len() ==> (#[trigger] a.measurements@[i]).level
            == b.measurements@[i].level && a.measurements@[i].compound@
            == b.measurements@[i].compound@
}

/// Measurements `a` and `b` name the same compounds and each level of `a` is at
/// most the matching level of `b`.
pub open spec fn levels_below(a: Seq<Measurement>, b: Seq<Measurement>) -> bool {
    &&& a.len() == b.len()
    &&& forall|i: int|
        0 <= i < a.len() ==> (#[trigger] a[i]).level <= b[i].level && a[i].compound@
            == b[i].compound@
}

proof fn lemma_exposure_nonnegative(ms: Seq<Measurement>, w: Seq<CompoundFactor>, d: u32)
    requires
        levels_nonnegative(ms),
    ensures
        exposure(ms, w, d) >= 0,
    decreases ms.len(),
{
    if ms.len() > 0 {
        lemma_exposure_nonnegative(ms.drop_last(), w, d);
        let l = ms.last().level as int;
        let f = factor_of(w, ms.last().compound@, d) as int;
        assert(l * f >= 0) by (nonlinear_arith)
            requires l >= 0, f >= 0;
    }
}

proof fn lemma_exposure_monotone(a: Seq<Measurement>, b: Seq<Measurement>, w: Seq<CompoundFactor>, d: u32)
    requires
        levels_below(a, b),
    ensures
        exposure(a, w, d) <= exposure(b, w, d),
    decreases a.len(),
{
    if a.len() > 0 {
        lemma_exposure_monotone(a.drop_last(), b.drop_last(), w, d);
        let la = a.last().level as int;
        let lb = b.last().level as int;
        let f = factor_of(w, a.last().compound@, d) as int;
        assert(a.last() == a[a.len() - 1]);
        assert(b.last() == b[b.len() - 1]);
        assert(la * f <= lb * f) by (nonlinear_arith)
            requires la <= lb, f >= 0;
    }
}

proof fn lemma_score_monotone_pointwise(a: Sample, b: Sample, c: Scheme)
    requires
        a.age == b.age,
        levels_nonnegative(a.measurements@),
        levels_below(a.measurements@, b.measurements@),
    ensures
        risk_score(a, c) <= risk_score(b, c),
{
    lemma_exposure_monotone(a.measurements@, b.measurements@, c.weights@, c.default_weight);
    lemma_exposure_nonnegative(a.measurements@, c.weights@, c.default_weight);
    if a.measurements@.len() == 1 {
        assert(a.measurements@[0].compound@ == b.measurements@[0].compound@);
    }
    let m = multiplier_of(a, c);
    assert(m == multiplier_of(b, c));
    let ba = base_score(a, c);
    let bb = base_score(b, c);
    assert(ba * m <= bb * m) by (nonlinear_arith)
        requires ba <= bb, m >= 0;
    vstd::arithmetic::div_mod::lemma_div_is_ordered(ba * m, bb * m, 1000);
}

/// Scoring depends only on the reading: two samples with the same age and the
/// same compounds at the same concentrations get the same score and band.
pub proof fn lemma_scoring_deterministic(a: Sample, b: Sample, c: Scheme)
    requires
        same_reading(a, b),
        levels_nonnegative(a.measurements@),
    ensures
        risk_score(a, c) == risk_score(b, c),
        risk_band(a, c) == risk_band(b, c),
{
    lemma_score_monotone_pointwise(a, b, c);
    assert(levels_nonnegative(b.measurements@)) by {
        assert forall|i: int| 0 <= i < b.measurements@.len() implies b.measurements@[i].level >= 0 by {
            assert(a.measurements@[i].level == b.measurements@[i].level);
        }
    }
    assert(levels_below(b.measurements@, a.measurements@)) by {
        assert forall|i: int| 0 <= i < b.measurements@.len() implies (#[trigger] b.measurements@[i]).level
            <= a.measurements@[i].level && b.measurements@[i].compound@ == a.measurements@[i].compound@ by {
            assert(a.measurements@[i].level == b.measurements@[i].level);
        }
    }
    lemma_score_monotone_pointwise(b, a, c);
}

/// Raising the concentration of one compound, all else fixed, never lowers the score.
pub proof fn lemma_score_monotone(a: Sample, b: Sample, c: Scheme, k: int)
    requires
        levels_nonnegative(a.measurements@),
        a.age == b.age,
        0 <= k < a.measurements@.len(),
        b.measurements@.len() == a.measurements@.len(),
        b.measurements@[k].compound@ == a.measurements@[k].compound@,
        b.measurements@[k].level >= a.measurements@[k].level,
        forall|i: int|
            0 <= i < a.measurements@.len() && i != k ==> (#[trigger] b.measurements@[i]).level
                == a.measurements@[i].level && b.measurements@[i].compound@
                == a.measurements@[i].compound@,
    ensures
        risk_score(a, c) <= risk_score(b, c),
{
    assert(levels_below(a.measurements@, b.measurements@)) by {
        assert forall|i: int| 0 <= i < a.measurements@.len() implies (#[trigger] a.measurements@[i]).level
            <= b.measurements@[i].level && a.measurements@[i].compound@ == b.measurements@[i].compound@ by {
            if i != k {
                assert(b.measurements@[i].level == a.measurements@[i].level);
            }
        }
    }
    lemma_score_monotone_pointwise(a, b, c);
}

/// A sample with non-negative concentrations never scores below zero.
pub proof fn lemma_score_nonnegative(s: Sample, c: Scheme)
    requires
        levels_nonnegative(s.measurements@),
    ensures
        risk_score(s, c) >= 0,
{
    lemma_exposure_nonnegative(s.measurements@, c.weights@, c.default_weight);
    let b = base_score(s, c);
    let m = multiplier_of(s, c);
    assert(b * m >= 0) by (nonlinear_arith)
        requires b >= 0, m >= 0;
}

/// No score exceeds the scheme's maximum, whatever the concentrations.
pub proof fn lemma_score_capped(s: Sample, c: Scheme)
    ensures
        risk_score(s, c) <= c.max_score,
{
}

/// A sample with age zero, or with a negative concentration, is refused.
pub proof fn lemma_invalid_refused(s: Sample)
    requires
        s.age == 0 || exists|i: int| 0 <= i < s.measurements@.len() && s.measurements@[i].level < 0,
    ensures
        !sample_valid(s),
{
}

/// Every sample that a batch scores is valid, and every sample it refuses is not;
/// together they account for the whole batch.
pub proof fn lemma_batch_partition(ss: Seq<Sample>)
    ensures
        forall|i: int| 0 <= i < kept(ss).len() ==> sample_valid(#[trigger] kept(ss)[i]),
        forall|i: int| 0 <= i < refused(ss).len() ==> !sample_valid(#[trigger] refused(ss)[i]),
        kept(ss).len() + refused(ss).len() == ss.len(),
    decreases ss.len(),
{
    if ss.len() > 0 {
        lemma_batch_partition(ss.drop_last());
    }
}

} // verus!
