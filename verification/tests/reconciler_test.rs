use canary_gate::operator::log_source::pod_log_lines;
use canary_gate::config::{
    EventConfig, PromoteConfig, RecommendationConfig, RollbackConfig, VerdictBias, EventLevel, EventPresentAssertion, FailSeverity, LogFormat, LoggingConfig,
    MatchCondition, MatchRule, TestAssertion, TestConfig,
};
use canary_gate::ingestion::RawLogLine;
use canary_gate::operator::crd::{CanaryGatePhase, CanaryGateSpec, CanaryGateStatus, TargetRef};
use canary_gate::operator::reconciler::{can_evaluate_gate, evaluate_gate, next_step, ReconcileStep};

fn spec() -> CanaryGateSpec {
    CanaryGateSpec {
        target_ref: TargetRef { api_version: "apps/v1".to_string(), kind: "Deployment".to_string(), name: "my-app".to_string() },
        pod_selector: None,
        evaluation: None,
        logging: Some(LoggingConfig {
            format: LogFormat::Plaintext,
            events: vec![EventConfig {
                event_type: "server_started".to_string(),
                level: EventLevel::Info,
                match_rule: MatchRule {
                    any: vec![MatchCondition { contains: Some("listening".to_string()), regex: None }],
                    all: vec![],
                    none: vec![],
                },
            }],
        }),
        tests: vec![TestConfig {
            name: "service_starts".to_string(),
            severity: FailSeverity::Hard,
            assertions: vec![TestAssertion {
                event_present: Some(EventPresentAssertion { event_type: "server_started".to_string(), within: None }),
                event_absent: None,
                rate: None,
            }],
        }],
        packs: vec![],
        recommendation: None,
        metrics: None,
    }
}

fn status(phase: CanaryGatePhase, cycles: u32, passes: u32) -> CanaryGateStatus {
    CanaryGateStatus { phase, recommendation: None, cycles, consecutive_passes: passes, conditions: vec![], reasoning: vec![], soft_fail_streaks: vec![] }
}

fn line(content: &str) -> RawLogLine {
    RawLogLine { content: content.to_string(), line_number: 1, timestamp: None, is_json: false, source: None }
}

#[test]
fn new_resource_starts_evaluating() {
    for st in [None, Some(status(CanaryGatePhase::Pending, 0, 0))] {
        match next_step(st.as_ref()) {
            ReconcileStep::UpdateStatus { status, requeue_secs } => {
                assert_eq!(requeue_secs, 5);
                assert_eq!(status.phase, CanaryGatePhase::Evaluating);
                assert_eq!(status.cycles, 0);
                assert_eq!(status.reasoning, vec!["Starting evaluation".to_string()]);
            }
            _ => panic!("expected a status update"),
        }
    }
}

#[test]
fn evaluating_resource_fetches_logs() {
    assert!(matches!(next_step(Some(&status(CanaryGatePhase::Evaluating, 2, 1))), ReconcileStep::FetchLogs));
}

#[test]
fn finished_resource_waits() {
    for p in [CanaryGatePhase::Promote, CanaryGatePhase::Hold, CanaryGatePhase::Rollback] {
        assert!(matches!(next_step(Some(&status(p, 5, 5))), ReconcileStep::Wait { requeue_secs: 300 }));
    }
}

#[test]
fn healthy_cycle_keeps_evaluating_until_enough_cycles() {
    let (st, requeue) = evaluate_gate(&spec(), Some(&status(CanaryGatePhase::Evaluating, 0, 0)), &[line("listening on :80")]);
    assert_eq!(st.phase, CanaryGatePhase::Evaluating);
    assert_eq!(st.recommendation.as_deref(), Some("hold"));
    assert_eq!(st.cycles, 1);
    assert_eq!(st.consecutive_passes, 1);
    assert_eq!(requeue, 30);
}

#[test]
fn healthy_cycle_promotes_after_resumed_counters() {
    // Default thresholds: five cycles and two consecutive passes.
    let (st, requeue) = evaluate_gate(&spec(), Some(&status(CanaryGatePhase::Evaluating, 4, 1)), &[line("listening on :80")]);
    assert_eq!(st.phase, CanaryGatePhase::Promote);
    assert_eq!(st.recommendation.as_deref(), Some("promote"));
    assert_eq!(st.cycles, 5);
    assert_eq!(st.consecutive_passes, 2);
    assert_eq!(requeue, 300);
}

#[test]
fn failing_hard_test_rolls_back() {
    let (st, requeue) = evaluate_gate(&spec(), None, &[line("nothing here")]);
    assert_eq!(st.phase, CanaryGatePhase::Rollback);
    assert_eq!(st.recommendation.as_deref(), Some("rollback"));
    assert_eq!(st.cycles, 1);
    assert_eq!(requeue, 300);
    assert!(!st.reasoning.is_empty());
}

#[test]
fn pod_log_text_becomes_numbered_lines() {
    let text: Vec<String> = vec!["{\"msg\":\"up\"}", "", "plain line", " {not json"]
        .into_iter()
        .map(|s| s.to_string())
        .collect();
    let lines = pod_log_lines("web-1", &text, 7);
    assert_eq!(lines.len(), 3);
    assert_eq!(lines[0].line_number, 7);
    assert!(lines[0].is_json);
    assert_eq!(lines[1].line_number, 8);
    assert_eq!(lines[1].content, "plain line");
    assert!(!lines[1].is_json);
    assert!(!lines[2].is_json);
    assert!(lines.iter().all(|l| l.timestamp.is_none()));
    assert!(lines.iter().all(|l| l.source.as_deref() == Some("pod:web-1")));
}

#[test]
fn soft_failures_roll_back_across_reconciles() {
    // A soft test that fails in two successive reconciles, with a limit of
    // two, rolls back on the second: the first status carries the streak.
    let mut spec = spec();
    spec.tests[0].severity = FailSeverity::Soft;
    spec.recommendation = Some(RecommendationConfig {
        promote: PromoteConfig { require_min_cycles: 5, require_consecutive_passes: 2 },
        rollback: RollbackConfig { soft_fail_consecutive_cycles: 2 },
        bias: VerdictBias::HoldOnAmbiguity,
    });
    let start = status(CanaryGatePhase::Evaluating, 0, 0);
    assert!(can_evaluate_gate(&spec, Some(&start)));
    let (first, _) = evaluate_gate(&spec, Some(&start), &[line("nothing here")]);
    assert_eq!(first.phase, CanaryGatePhase::Evaluating);
    assert_eq!(first.soft_fail_streaks, vec![("service_starts".to_string(), 1)]);
    assert_eq!(first.reasoning, vec!["Completed 1 cycles, 0 consecutive passes — not yet meeting promote criteria".to_string()]);
    let (second, requeue) = evaluate_gate(&spec, Some(&first), &[line("nothing here")]);
    assert_eq!(second.phase, CanaryGatePhase::Rollback);
    assert_eq!(second.recommendation.as_deref(), Some("rollback"));
    assert_eq!(second.soft_fail_streaks, vec![("service_starts".to_string(), 2)]);
    assert_eq!(second.reasoning, vec!["Soft-fail test 'service_starts' failed for 2 consecutive cycles".to_string()]);
    assert_eq!(requeue, 300);
}

#[test]
fn corrupt_or_exhausted_status_cannot_be_evaluated() {
    let mut dup = status(CanaryGatePhase::Evaluating, 1, 0);
    dup.soft_fail_streaks = vec![("a".to_string(), 1), ("a".to_string(), 2)];
    assert!(!can_evaluate_gate(&spec(), Some(&dup)));
    assert!(!can_evaluate_gate(&spec(), Some(&status(CanaryGatePhase::Evaluating, u32::MAX, 0))));
    let mut full = status(CanaryGatePhase::Evaluating, 1, 0);
    full.soft_fail_streaks = vec![("a".to_string(), u32::MAX)];
    assert!(!can_evaluate_gate(&spec(), Some(&full)));
    assert!(can_evaluate_gate(&spec(), None));
}
