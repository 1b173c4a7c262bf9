//! Reconciliation decisions for `CanaryGate` resources: the phase machine
//! Pending -> Evaluating -> Promote / Hold / Rollback.

use vstd::prelude::*;
use vstd::string::*;

use super::crd::{default_recommendation, CanaryGatePhase, CanaryGateSpec, CanaryGateStatus};
use crate::behavior::{evaluate_tests, evaluations_view, test_evaluation, TestEvaluation};
use crate::classification::{classify_stream, stream_events, CompiledRules};
use crate::config::{EventConfig, FailSeverity, RecommendationConfig};
use crate::events::CanonicalEvent;
use crate::ingestion::RawLogLine;
use crate::recommendation::{
    apply_evaluations, copy_streaks, fails_once, has_hard_failure, key_index, keys_distinct,
    lemma_apply_distinct, lemma_apply_one_failure, lemma_key_index, severity_of, streak_of,
    streak_reached, label_text, model, step, streaks_bounded, streaks_distinct, streaks_view,
    CycleTracker, Recommendation, TrackerModel,
};
use crate::verdict::{reasoning_of, strings_view, Verdict};

verus! {

/// What a reconciliation asks for next.
pub enum ReconcileStep {
    /// Write this status, then look again after `requeue_secs` seconds.
    UpdateStatus { status: CanaryGateStatus, requeue_secs: u64 },
    /// Fetch the canary pods' logs and evaluate them.
    FetchLogs,
    /// Nothing to do; look again after `requeue_secs` seconds.
    Wait { requeue_secs: u64 },
}

/// The phase that follows an evaluation with the given recommendation.
pub open spec fn phase_after(r: Recommendation) -> CanaryGatePhase {
    match r {
        Recommendation::Promote => CanaryGatePhase::Promote,
        Recommendation::Hold => CanaryGatePhase::Evaluating,
        Recommendation::Rollback => CanaryGatePhase::Rollback,
    }
}

/// Seconds until the next look after an evaluation ending in `p`.
pub open spec fn requeue_after(p: CanaryGatePhase) -> u64 {
    if p == CanaryGatePhase::Evaluating {
        30
    } else {
        300
    }
}

/// Decides the next step from the resource's current status: a resource
/// without status (or pending) starts evaluating, an evaluating one has its
/// logs fetched, a finished one is only looked at again later.
pub fn next_step(status: Option<&CanaryGateStatus>) -> (r: ReconcileStep)
    ensures
        match status {
            None => r matches ReconcileStep::UpdateStatus { status: s, requeue_secs: 5 } && s.phase
                == CanaryGatePhase::Evaluating && s.recommendation is None && s.cycles == 0
                && s.consecutive_passes == 0 && s.conditions@.len() == 0 && strings_view(
                s.reasoning@,
            ) == seq!["Starting evaluation"@] && s.soft_fail_streaks@.len() == 0,
            Some(st) => match st.phase {
                CanaryGatePhase::Pending => r matches ReconcileStep::UpdateStatus {
                    status: s,
                    requeue_secs: 5,
                } && s.phase == CanaryGatePhase::Evaluating && s.recommendation is None && s.cycles
                    == 0 && s.consecutive_passes == 0 && s.conditions@.len() == 0 && strings_view(
                    s.reasoning@,
                ) == seq!["Starting evaluation"@] && s.soft_fail_streaks@.len() == 0,
                CanaryGatePhase::Evaluating => r is FetchLogs,
                _ => r matches ReconcileStep::Wait { requeue_secs: 300 },
            },
        },
{
    let phase = match status {
        Some(s) => s.phase,
        None => CanaryGatePhase::Pending,
    };
    match phase {
        CanaryGatePhase::Pending => {
            let mut reasoning: Vec<String> = Vec::new();
            reasoning.push(String::from_str("Starting evaluation"));
            assert(strings_view(reasoning@) =~= seq!["Starting evaluation"@]);
            ReconcileStep::UpdateStatus {
                status: CanaryGateStatus {
                    phase: CanaryGatePhase::Evaluating,
                    recommendation: None,
                    cycles: 0,
                    consecutive_passes: 0,
                    conditions: Vec::new(),
                    reasoning,
                    soft_fail_streaks: Vec::new(),
                },
                requeue_secs: 5,
            }
        },
        CanaryGatePhase::Evaluating => ReconcileStep::FetchLogs,
        _ => ReconcileStep::Wait { requeue_secs: 300 },
    }
}

/// The tracker state an evaluation resumes from: the status's counters and
/// soft-fail streaks.
pub open spec fn resumed_model(status: Option<&CanaryGateStatus>) -> TrackerModel {
    TrackerModel {
        total: match status {
            Some(s) => s.cycles as nat,
            None => 0,
        },
        passes: match status {
            Some(s) => s.consecutive_passes as nat,
            None => 0,
        },
        streaks: match status {
            Some(s) => streaks_view(s.soft_fail_streaks@),
            None => Seq::empty(),
        },
        hard: false,
        rec: Recommendation::Hold,
    }
}

/// The classification rules of a resource (none when it has no logging).
pub open spec fn spec_rules(spec: CanaryGateSpec) -> Seq<EventConfig> {
    match spec.logging {
        Some(l) => l.events@,
        None => Seq::empty(),
    }
}

/// The recommendation settings of a resource (the defaults when absent).
pub open spec fn spec_recommendation(spec: CanaryGateSpec) -> RecommendationConfig {
    match spec.recommendation {
        Some(r) => r,
        None => default_recommendation(),
    }
}

/// `events` and `es` are the events and test evaluations of one cycle over
/// `lines`, and `r` the status and requeue delay that the cycle gives.
pub open spec fn gate_outcome(
    spec: CanaryGateSpec,
    status: Option<&CanaryGateStatus>,
    lines: Seq<RawLogLine>,
    c: CompiledRules,
    events: Seq<CanonicalEvent>,
    es: Seq<TestEvaluation>,
    r: (CanaryGateStatus, u64),
) -> bool {
    &&& c.holds_exactly(spec_rules(spec))
    &&& events.map_values(|e: CanonicalEvent| e@) == stream_events(lines, spec_rules(spec), c)
    &&& es.len() == spec.tests@.len()
    &&& forall|i: int|
        0 <= i < es.len() ==> #[trigger] es[i]@ == test_evaluation(spec.tests@[i], events)
    &&& ({
        let m = step(resumed_model(status), spec.tests@, es, spec_recommendation(spec));
        &&& r.0.phase == phase_after(m.rec)
        &&& r.0.recommendation matches Some(t) && t@ == label_text(m.rec)
        &&& r.0.cycles == m.total
        &&& r.0.consecutive_passes == m.passes
        &&& r.0.conditions@.len() == 0
        &&& strings_view(r.0.reasoning@) == reasoning_of(m)
        &&& streaks_view(r.0.soft_fail_streaks@) == m.streaks
        &&& r.1 == requeue_after(phase_after(m.rec))
    })
}

/// Evaluation state survives between reconciles: the status written after a
/// cycle resumes the next cycle from the stepped tracker's cycle count, run
/// of passes and soft-fail streaks, so soft failures keep counting across
/// reconciles.
pub proof fn law_status_carries_tracker(
    spec: CanaryGateSpec,
    status: Option<&CanaryGateStatus>,
    lines: Seq<RawLogLine>,
    c: CompiledRules,
    events: Seq<CanonicalEvent>,
    es: Seq<TestEvaluation>,
    r: (CanaryGateStatus, u64),
)
    requires
        gate_outcome(spec, status, lines, c, events, es, r),
    ensures
        ({
            let m = step(resumed_model(status), spec.tests@, es, spec_recommendation(spec));
            let next = resumed_model(Some(&r.0));
            &&& next.total == m.total
            &&& next.passes == m.passes
            &&& next.streaks == m.streaks
        }),
{
}

proof fn lemma_reconcile_soft_failure(
    spec: CanaryGateSpec,
    st: CanaryGateStatus,
    lines: Seq<RawLogLine>,
    c: CompiledRules,
    events: Seq<CanonicalEvent>,
    es: Seq<TestEvaluation>,
    r: (CanaryGateStatus, u64),
    k: Seq<char>,
)
    requires
        gate_outcome(spec, Some(&st), lines, c, events, es, r),
        keys_distinct(streaks_view(st.soft_fail_streaks@)),
        fails_once(es, k),
        severity_of(spec.tests@, k) == FailSeverity::Soft,
    ensures
        keys_distinct(streaks_view(r.0.soft_fail_streaks@)),
        streak_of(streaks_view(r.0.soft_fail_streaks@), k) == streak_of(
            streaks_view(st.soft_fail_streaks@),
            k,
        ) + 1,
        streak_of(streaks_view(r.0.soft_fail_streaks@), k)
            >= spec_recommendation(spec).rollback.soft_fail_consecutive_cycles ==> {
            &&& r.0.phase == CanaryGatePhase::Rollback
            &&& r.0.recommendation matches Some(t) && t@ == "rollback"@
        },
{
    let m0 = resumed_model(Some(&st));
    let rc = spec_recommendation(spec);
    let sv = apply_evaluations(m0.streaks, spec.tests@, es);
    lemma_apply_distinct(m0.streaks, spec.tests@, es);
    lemma_apply_one_failure(m0.streaks, spec.tests@, es, k);
    lemma_key_index(sv, k);
    if streak_of(sv, k) >= rc.rollback.soft_fail_consecutive_cycles && !has_hard_failure(
        spec.tests@,
        es,
    ) {
        let i = key_index(sv, k);
        assert(sv[i].1 >= rc.rollback.soft_fail_consecutive_cycles);
        assert(streak_reached(sv, rc.rollback.soft_fail_consecutive_cycles as nat));
    }
}

/// Soft failures roll back across reconciles: when a soft test fails once in
/// each of `n` successive evaluations of a resource, each starting from the
/// status the previous one wrote, its streak in the status grows by `n`, and
/// the status is rollback once the streak reaches the configured length.
pub proof fn law_soft_failures_roll_back_across_reconciles(
    spec: CanaryGateSpec,
    statuses: Seq<CanaryGateStatus>,
    lines: Seq<Seq<RawLogLine>>,
    cs: Seq<CompiledRules>,
    events: Seq<Seq<CanonicalEvent>>,
    ess: Seq<Seq<TestEvaluation>>,
    delays: Seq<u64>,
    k: Seq<char>,
)
    requires
        statuses.len() == ess.len() + 1,
        lines.len() == ess.len(),
        cs.len() == ess.len(),
        events.len() == ess.len(),
        delays.len() == ess.len(),
        keys_distinct(streaks_view(statuses[0].soft_fail_streaks@)),
        severity_of(spec.tests@, k) == FailSeverity::Soft,
        forall|i: int|
            0 <= i < ess.len() ==> fails_once(#[trigger] ess[i], k) && gate_outcome(
                spec,
                Some(&statuses[i]),
                lines[i],
                cs[i],
                events[i],
                ess[i],
                (statuses[i + 1], delays[i]),
            ),
    ensures
        keys_distinct(streaks_view(statuses.last().soft_fail_streaks@)),
        streak_of(streaks_view(statuses.last().soft_fail_streaks@), k) == streak_of(
            streaks_view(statuses[0].soft_fail_streaks@),
            k,
        ) + ess.len(),
        ess.len() > 0 && streak_of(streaks_view(statuses[0].soft_fail_streaks@), k) + ess.len()
            >= spec_recommendation(spec).rollback.soft_fail_consecutive_cycles ==> {
            &&& statuses.last().phase == CanaryGatePhase::Rollback
            &&& statuses.last().recommendation matches Some(t) && t@ == "rollback"@
        },
    decreases ess.len(),
{
    let n = ess.len();
    if n > 0 {
        let ps = statuses.drop_last();
        assert forall|i: int| 0 <= i < n - 1 implies fails_once(#[trigger] ess.drop_last()[i], k)
            && gate_outcome(
            spec,
            Some(&ps[i]),
            lines.drop_last()[i],
            cs.drop_last()[i],
            events.drop_last()[i],
            ess.drop_last()[i],
            (ps[i + 1], delays.drop_last()[i]),
        ) by {
            assert(ess.drop_last()[i] == ess[i]);
            assert(ps[i] == statuses[i] && ps[i + 1] == statuses[i + 1]);
            assert(fails_once(ess[i], k));
        }
        law_soft_failures_roll_back_across_reconciles(
            spec,
            ps,
            lines.drop_last(),
            cs.drop_last(),
            events.drop_last(),
            ess.drop_last(),
            delays.drop_last(),
            k,
        );
        assert(ps.last() == statuses[n - 1]);
        assert(fails_once(ess[n - 1], k));
        lemma_reconcile_soft_failure(
            spec,
            statuses[n - 1],
            lines[n - 1],
            cs[n - 1],
            events[n - 1],
            ess[n - 1],
            (statuses[n as int], delays[n - 1]),
            k,
        );
    }
}

/// A cycle can be run from this status: the counters have room for one
/// more cycle of the spec's tests, and the carried streaks name each test
/// once.
pub open spec fn gate_can_evaluate(spec: CanaryGateSpec, status: Option<&CanaryGateStatus>) -> bool {
    let m = resumed_model(status);
    &&& spec.tests@.len() <= u32::MAX
    &&& m.total < u32::MAX
    &&& m.passes < u32::MAX
    &&& keys_distinct(m.streaks)
    &&& streaks_bounded(m.streaks, u32::MAX - spec.tests@.len())
}

/// Tests whether a cycle can be run from this status (`gate_can_evaluate`).
pub fn can_evaluate_gate(spec: &CanaryGateSpec, status: Option<&CanaryGateStatus>) -> (b: bool)
    ensures
        b == gate_can_evaluate(*spec, status),
{
    let n = spec.tests.len();
    if n as u64 > u32::MAX as u64 {
        return false;
    }
    match status {
        None => {
            assert(streaks_view(Seq::<(String, u32)>::empty()) =~= Seq::<(Seq<char>, nat)>::empty());
            true
        },
        Some(s) => {
            if s.cycles == u32::MAX || s.consecutive_passes == u32::MAX {
                return false;
            }
            if !streaks_distinct(s.soft_fail_streaks.as_slice()) {
                return false;
            }
            let bound: u32 = (u32::MAX as usize - n) as u32;
            let ghost sv = streaks_view(s.soft_fail_streaks@);
            let mut i: usize = 0;
            while i < s.soft_fail_streaks.len()
                invariant
                    i <= s.soft_fail_streaks@.len(),
                    sv == streaks_view(s.soft_fail_streaks@),
                    bound == u32::MAX - n,
                    n == spec.tests@.len(),
                    sv == resumed_model(status).streaks,
                    forall|j: int| 0 <= j < i ==> #[trigger] sv[j].1 <= bound,
                decreases s.soft_fail_streaks.len() - i,
            {
                if s.soft_fail_streaks[i].1 > bound {
                    assert(sv[i as int].1 > bound);
                    assert(!streaks_bounded(sv, u32::MAX - spec.tests@.len()));
                    return false;
                }
                i = i + 1;
            }
            true
        },
    }
}

/// Runs one evaluation cycle of a resource over its canary's log lines: the
/// lines are classified with the resource's rules, its tests evaluated, and
/// the cycle recorded on a tracker resumed from the status's counters. Gives
/// the new status and the seconds until the next look.
pub fn evaluate_gate(spec: &CanaryGateSpec, status: Option<&CanaryGateStatus>, lines: &[RawLogLine]) -> (r: (
    CanaryGateStatus,
    u64,
))
    requires
        gate_can_evaluate(*spec, status),
    ensures
        exists|c: CompiledRules, events: Seq<CanonicalEvent>, es: Seq<TestEvaluation>|
            #[trigger] gate_outcome(*spec, status, lines@, c, events, es, r),
{
    let no_rules: Vec<EventConfig> = Vec::new();
    let rules: &[EventConfig] = match &spec.logging {
        Some(l) => l.events.as_slice(),
        None => no_rules.as_slice(),
    };
    let config = match &spec.recommendation {
        Some(r) => *r,
        None => RecommendationConfig::default(),
    };
    let events = classify_stream(lines, rules);
    let evaluations = evaluate_tests(spec.tests.as_slice(), events.as_slice());
    let mut tracker = CycleTracker::new();
    match status {
        Some(s) => {
            tracker.total_cycles = s.cycles;
            tracker.consecutive_passes = s.consecutive_passes;
            tracker.soft_fail_streaks = copy_streaks(s.soft_fail_streaks.as_slice());
        },
        None => {
            assert(streaks_view(tracker.soft_fail_streaks@) =~= Seq::<(Seq<char>, nat)>::empty());
        },
    }
    assert(model(tracker) == resumed_model(status));
    tracker.record_cycle(spec.tests.as_slice(), evaluations.as_slice(), &config);
    let verdict = Verdict::from_tracker(&tracker);
    let new_phase = match verdict.recommendation {
        Recommendation::Promote => CanaryGatePhase::Promote,
        Recommendation::Hold => CanaryGatePhase::Evaluating,
        Recommendation::Rollback => CanaryGatePhase::Rollback,
    };
    let requeue_secs: u64 = if new_phase == CanaryGatePhase::Evaluating {
        30
    } else {
        300
    };
    let new_status = CanaryGateStatus {
        phase: new_phase,
        recommendation: Some(verdict.recommendation.label()),
        cycles: verdict.total_cycles,
        consecutive_passes: verdict.consecutive_passes,
        conditions: Vec::new(),
        reasoning: verdict.reasoning,
        soft_fail_streaks: copy_streaks(tracker.soft_fail_streaks.as_slice()),
    };
    let r = (new_status, requeue_secs);
    proof {
        let c = choose|c: CompiledRules|
            c.holds_exactly(rules@) && events@.map_values(|e: CanonicalEvent| e@) == stream_events(
                lines@,
                rules@,
                c,
            );
        assert(gate_outcome(*spec, status, lines@, c, events@, evaluations@, r));
    }
    r
}

} // verus!
