//! Classification of a baseline-versus-canary metric comparison.

use vstd::prelude::*;

verus! {

/// Classification of a metric comparison result.
#[derive(Clone, Copy, Debug, PartialEq, Eq, Structural)]
pub enum MetricClassification {
    Pass,
    Marginal,
    Fail,
}

/// Where a comparison's p-value lies: at least 0.05, in [0.01, 0.05), or
/// below 0.01.
#[derive(Clone, Copy, Debug, PartialEq, Eq, Structural)]
pub enum Significance {
    NotSignificant,
    Weak,
    Strong,
}

/// Classifies a comparison: pass when the change is not significant or goes
/// in the good direction, marginal when weakly significant in the bad
/// direction, fail when strongly significant in the bad direction.
pub fn classify_change(significance: Significance, good_direction: bool) -> (c: MetricClassification)
    ensures
        c == if significance == Significance::NotSignificant || good_direction {
            MetricClassification::Pass
        } else if significance == Significance::Weak {
            MetricClassification::Marginal
        } else {
            MetricClassification::Fail
        },
{
    match significance {
        Significance::NotSignificant => MetricClassification::Pass,
        _ => if good_direction {
            MetricClassification::Pass
        } else {
            match significance {
                Significance::Weak => MetricClassification::Marginal,
                _ => MetricClassification::Fail,
            }
        },
    }
}

/// How many of the classifications are `k`.
pub open spec fn count_class(cs: Seq<MetricClassification>, k: MetricClassification) -> nat
    decreases cs.len(),
{
    if cs.len() == 0 {
        0
    } else {
        count_class(cs.drop_last(), k) + if cs.last() == k {
            1nat
        } else {
            0nat
        }
    }
}

proof fn lemma_count_class_bound(cs: Seq<MetricClassification>, k: MetricClassification)
    ensures
        count_class(cs, k) <= cs.len(),
    decreases cs.len(),
{
    if cs.len() > 0 {
        lemma_count_class_bound(cs.drop_last(), k);
    }
}

/// The numbers of passing, marginal and failing comparisons.
pub fn classification_counts(cs: &[MetricClassification]) -> (r: (usize, usize, usize))
    ensures
        r.0 == count_class(cs@, MetricClassification::Pass),
        r.1 == count_class(cs@, MetricClassification::Marginal),
        r.2 == count_class(cs@, MetricClassification::Fail),
{
    let (mut pass, mut marginal, mut fail): (usize, usize, usize) = (0, 0, 0);
    let mut i: usize = 0;
    while i < cs.len()
        invariant
            i <= cs@.len(),
            pass == count_class(cs@.take(i as int), MetricClassification::Pass),
            marginal == count_class(cs@.take(i as int), MetricClassification::Marginal),
            fail == count_class(cs@.take(i as int), MetricClassification::Fail),
        decreases cs.len() - i,
    {
        assert(cs@.take(i + 1).drop_last() =~= cs@.take(i as int));
        assert(cs@.take(i + 1).last() == cs@[i as int]);
        proof {
            lemma_count_class_bound(cs@.take(i as int), MetricClassification::Pass);
            lemma_count_class_bound(cs@.take(i as int), MetricClassification::Marginal);
            lemma_count_class_bound(cs@.take(i as int), MetricClassification::Fail);
        }
        match cs[i] {
            MetricClassification::Pass => pass = pass + 1,
            MetricClassification::Marginal => marginal = marginal + 1,
            MetricClassification::Fail => fail = fail + 1,
        }
        i = i + 1;
    }
    assert(cs@.take(cs@.len() as int) =~= cs@);
    (pass, marginal, fail)
}

} // verus!
