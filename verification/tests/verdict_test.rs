use canary_gate::behavior::{AssertionResult, TestEvaluation, TestResult};
use canary_gate::config::{
    FailSeverity, PromoteConfig, RecommendationConfig, RollbackConfig, TestConfig, VerdictBias,
};
use canary_gate::recommendation::{CycleTracker, Recommendation};
use canary_gate::verdict::Verdict;

fn eval(name: &str, result: TestResult) -> TestEvaluation {
    TestEvaluation {
        test_name: name.to_string(),
        result,
        assertion_results: vec![AssertionResult {
            description: "d".to_string(),
            result,
        }],
    }
}

fn rc(min: u32, passes: u32, soft: u32) -> RecommendationConfig {
    RecommendationConfig {
        promote: PromoteConfig {
            require_min_cycles: min,
            require_consecutive_passes: passes,
        },
        rollback: RollbackConfig {
            soft_fail_consecutive_cycles: soft,
        },
        bias: VerdictBias::HoldOnAmbiguity,
    }
}

#[test]
fn verdict_from_tracker_zero_cycles() {
    let tracker = CycleTracker::new();
    let verdict = Verdict::from_tracker(&tracker);

    assert_eq!(verdict.recommendation, Recommendation::Hold);
    assert_eq!(verdict.total_cycles, 0);
    assert_eq!(verdict.consecutive_passes, 0);
    assert!(verdict.test_results.is_empty());
    assert!(verdict
        .reasoning
        .iter()
        .any(|r| r.contains("No evaluation cycles")));
}

#[test]
fn verdict_format_table_empty_results() {
    let verdict = Verdict {
        recommendation: Recommendation::Hold,
        total_cycles: 0,
        consecutive_passes: 0,
        test_results: vec![],
        reasoning: vec![],
    };
    let table = verdict.format_table();

    assert!(table.contains("RECOMMEND_HOLD"));
    assert!(table.contains("Cycles: 0"));
    assert!(!table.contains("Test Results"));
    assert!(!table.contains("Reasoning"));
}

#[test]
fn recommendation_display_format() {
    assert_eq!(Recommendation::Promote.to_string(), "RECOMMEND_PROMOTE");
    assert_eq!(Recommendation::Hold.to_string(), "RECOMMEND_HOLD");
    assert_eq!(Recommendation::Rollback.to_string(), "RECOMMEND_ROLLBACK");
}

#[test]
fn exit_codes_follow_recommendation() {
    let mut v = Verdict {
        recommendation: Recommendation::Promote,
        total_cycles: 1,
        consecutive_passes: 1,
        test_results: vec![],
        reasoning: vec![],
    };
    assert_eq!(v.exit_code(), 0);
    v.recommendation = Recommendation::Hold;
    assert_eq!(v.exit_code(), 1);
    v.recommendation = Recommendation::Rollback;
    assert_eq!(v.exit_code(), 2);
}

#[test]
fn format_table_exact_text() {
    let verdict = Verdict {
        recommendation: Recommendation::Promote,
        total_cycles: 12,
        consecutive_passes: 3,
        test_results: vec![eval("service_starts", TestResult::Pass), eval("x", TestResult::Unknown)],
        reasoning: vec!["one".to_string(), "two".to_string()],
    };
    let expected = format!(
        "Recommendation: RECOMMEND_PROMOTE\nCycles: 12 total, 3 consecutive passes\n\nTest Results:\n  {:<30} {:<10}\n  {:-<30} {:-<10}\n  {:<30} {:<10}\n  {:<30} {:<10}\n\nReasoning:\n  - one\n  - two\n",
        "Test", "Result", "", "", "service_starts", "Pass", "x", "Unknown"
    );
    assert_eq!(verdict.format_table(), expected);
}

#[test]
fn promote_reasoning_counts_passes() {
    let mut tracker = CycleTracker::new();
    let tests = vec![TestConfig {
        name: "t".to_string(),
        severity: FailSeverity::Hard,
        assertions: vec![],
    }];
    let config = rc(1, 1, 3);
    tracker.record_cycle(&tests, &[eval("t", TestResult::Pass)], &config);
    let v = Verdict::from_tracker(&tracker);
    assert_eq!(v.recommendation, Recommendation::Promote);
    assert_eq!(
        v.reasoning,
        vec!["All tests passing for 1 consecutive cycles (required: min cycles met)".to_string()]
    );
    assert_eq!(v.test_results.len(), 1);
}

#[test]
fn hold_reasoning_after_cycles() {
    let mut tracker = CycleTracker::new();
    let tests: Vec<TestConfig> = vec![];
    let config = rc(5, 2, 3);
    tracker.record_cycle(&tests, &[eval("t", TestResult::Unknown)], &config);
    let v = Verdict::from_tracker(&tracker);
    assert_eq!(
        v.reasoning,
        vec!["Completed 1 cycles, 0 consecutive passes — not yet meeting promote criteria".to_string()]
    );
}

#[test]
fn rollback_reasoning_names_hard_failure() {
    let mut tracker = CycleTracker::new();
    let tests: Vec<TestConfig> = vec![];
    tracker.record_cycle(&tests, &[eval("t", TestResult::Fail)], &rc(5, 2, 3));
    let v = Verdict::from_tracker(&tracker);
    assert_eq!(v.exit_code(), 2);
    assert_eq!(v.reasoning, vec!["Hard failure detected — immediate rollback".to_string()]);
}

#[test]
fn rollback_reasoning_lists_soft_streaks() {
    let mut tracker = CycleTracker::new();
    let tests = vec![TestConfig {
        name: "error_rate".to_string(),
        severity: FailSeverity::Soft,
        assertions: vec![],
    }];
    let config = rc(5, 2, 2);
    tracker.record_cycle(&tests, &[eval("error_rate", TestResult::Fail)], &config);
    tracker.record_cycle(&tests, &[eval("error_rate", TestResult::Fail)], &config);
    let v = Verdict::from_tracker(&tracker);
    assert_eq!(v.recommendation, Recommendation::Rollback);
    assert_eq!(
        v.reasoning,
        vec!["Soft-fail test 'error_rate' failed for 2 consecutive cycles".to_string()]
    );
}
