use canary_gate::behavior::{evaluate_metrics_queries, evaluate_tests, MetricCheck, TestResult};
use canary_gate::classification::classify_stream;
use canary_gate::config::{
    Config, EvaluationConfig, EventAbsentAssertion, EventConfig, EventLevel, EventPresentAssertion,
    FailSeverity, LogFormat, LoggingConfig, LogstreamConfig, MatchCondition, MatchRule,
    MetricsQuery, MetricsSourceConfig, MetricsSourceType, PromoteConfig, RateAssertion,
    RateOperator, RecommendationConfig, RollbackConfig, TestAssertion, TestConfig, Threshold,
    VerdictBias,
};
use canary_gate::ingestion::LogReader;
use canary_gate::recommendation::{CycleTracker, Recommendation};
use canary_gate::verdict::{evaluate_cycle, Verdict};

fn rule(event_type: &str, level: EventLevel, needle: &str) -> EventConfig {
    EventConfig {
        event_type: event_type.to_string(),
        level,
        match_rule: MatchRule {
            any: vec![MatchCondition { contains: Some(needle.to_string()), regex: None }],
            all: vec![],
            none: vec![],
        },
    }
}

fn present(event_type: &str) -> TestAssertion {
    TestAssertion {
        event_present: Some(EventPresentAssertion { event_type: event_type.to_string(), within: None }),
        event_absent: None,
        rate: None,
    }
}

fn absent(event_type: &str) -> TestAssertion {
    TestAssertion {
        event_present: None,
        event_absent: Some(EventAbsentAssertion { event_type: event_type.to_string() }),
        rate: None,
    }
}

fn rate_below(event_type: &str, n: i128) -> TestAssertion {
    TestAssertion {
        event_present: None,
        event_absent: None,
        rate: Some(RateAssertion {
            event_type: event_type.to_string(),
            threshold: Some(Threshold { floor: n, ceil: n, nan: false, text: n.to_string() }),
            operator: Some(RateOperator::LessThan),
        }),
    }
}

/// A service configuration: it must start, never panic, and keep 5xx
/// responses under five; one cycle is enough to promote.
fn scenario_config() -> Config {
    Config {
        logstream: LogstreamConfig::default(),
        evaluation: EvaluationConfig::default(),
        logging: LoggingConfig {
            format: LogFormat::Plaintext,
            events: vec![
                rule("grpc_server_started", EventLevel::Info, "gRPC server listening"),
                rule("panic", EventLevel::Fatal, "panic:"),
                rule("http_5xx", EventLevel::Error, "status=5"),
            ],
        },
        tests: vec![
            TestConfig { name: "service_starts".to_string(), severity: FailSeverity::Hard, assertions: vec![present("grpc_server_started")] },
            TestConfig { name: "no_panics".to_string(), severity: FailSeverity::Hard, assertions: vec![absent("panic")] },
            TestConfig { name: "low_error_rate".to_string(), severity: FailSeverity::Soft, assertions: vec![rate_below("http_5xx", 5)] },
        ],
        packs: vec![],
        overrides: vec![],
        recommendation: RecommendationConfig {
            promote: PromoteConfig { require_min_cycles: 1, require_consecutive_passes: 1 },
            rollback: RollbackConfig { soft_fail_consecutive_cycles: 1 },
            bias: VerdictBias::HoldOnAmbiguity,
        },
        metrics: None,
        analysis: None,
    }
}

const HEALTHY_LOG: &str = "2024-01-15T10:30:00Z INFO Starting service
2024-01-15T10:30:01Z INFO gRPC server listening on 0.0.0.0:50051
2024-01-15T10:30:02Z INFO request status=200
";

const PANIC_LOG: &str = "2024-01-15T10:30:00Z INFO Starting service
2024-01-15T10:30:01Z INFO gRPC server listening on 0.0.0.0:50051
2024-01-15T10:30:02Z FATAL panic: runtime error
";

const SILENT_LOG: &str = "2024-01-15T10:30:00Z INFO Starting service
";

/// The whole evaluation pipeline over one cycle of log text.
fn run(config: &Config, extra_tests: &[TestConfig], extra_evals: Vec<canary_gate::behavior::TestEvaluation>, log: &str) -> Verdict {
    let reader = LogReader::new(config.logging.format);
    let raw: Vec<String> = log.lines().map(|s| s.to_string()).collect();
    assert!(reader.can_read(&raw));
    let lines = reader.read_lines(&raw);
    let events = classify_stream(&lines, &config.logging.events);
    let mut evaluations = evaluate_tests(&config.tests, &events);
    let mut tests = config.tests.clone();
    tests.extend_from_slice(extra_tests);
    evaluations.extend(extra_evals);
    let mut tracker = CycleTracker::new();
    assert!(tracker.can_record(evaluations.len()));
    tracker.record_cycle(&tests, &evaluations, &config.recommendation);
    Verdict::from_tracker(&tracker)
}

fn evaluate_scenario(log: &str) -> Verdict {
    run(&scenario_config(), &[], vec![], log)
}

#[test]
fn e2e_promote_scenario() {
    let verdict = evaluate_scenario(HEALTHY_LOG);
    assert_eq!(verdict.recommendation, Recommendation::Promote);
    assert_eq!(verdict.total_cycles, 1);
    assert_eq!(verdict.consecutive_passes, 1);
}

#[test]
fn e2e_rollback_scenario() {
    let verdict = evaluate_scenario(PANIC_LOG);
    assert_eq!(verdict.recommendation, Recommendation::Rollback);
    assert_eq!(verdict.total_cycles, 1);
}

#[test]
fn e2e_hold_scenario() {
    // A rate assertion without threshold leaves the verdict open.
    let mut config = scenario_config();
    config.tests[2].assertions[0].rate.as_mut().unwrap().threshold = None;
    let verdict = run(&config, &[], vec![], HEALTHY_LOG);
    assert_eq!(verdict.recommendation, Recommendation::Hold);
    assert_eq!(verdict.total_cycles, 1);
}

#[test]
fn e2e_promote_table_output() {
    let verdict = evaluate_scenario(HEALTHY_LOG);
    let table = verdict.format_table();
    assert!(table.contains("RECOMMEND_PROMOTE"));
    assert!(table.contains("Test Results"));
    assert!(table.contains("service_starts"));
}

#[test]
fn e2e_rollback_has_reasoning() {
    let verdict = evaluate_scenario(PANIC_LOG);
    assert!(!verdict.reasoning.is_empty());
    assert_eq!(verdict.reasoning, vec!["Hard failure detected — immediate rollback".to_string()]);
}

#[test]
fn e2e_exit_codes() {
    let mut hold_config = scenario_config();
    hold_config.tests[2].assertions[0].rate.as_mut().unwrap().threshold = None;
    assert_eq!(evaluate_scenario(HEALTHY_LOG).exit_code(), 0);
    assert_eq!(run(&hold_config, &[], vec![], HEALTHY_LOG).exit_code(), 1);
    assert_eq!(evaluate_scenario(PANIC_LOG).exit_code(), 2);
}

#[test]
fn e2e_missing_startup_rolls_back() {
    let verdict = evaluate_scenario(SILENT_LOG);
    assert_eq!(verdict.recommendation, Recommendation::Rollback);
    assert_eq!(verdict.test_results[0].result, TestResult::Fail);
}

fn metrics_queries() -> Vec<MetricsQuery> {
    vec![
        MetricsQuery { name: "error_rate".to_string(), query: "rate(http_errors_total[5m])".to_string(), operator: Some(RateOperator::LessThan), severity: FailSeverity::Hard },
        MetricsQuery { name: "latency_p99".to_string(), query: "histogram_quantile(0.99, ...)".to_string(), operator: Some(RateOperator::LessThan), severity: FailSeverity::Soft },
    ]
}

fn run_with_metrics(checks: Vec<MetricCheck>) -> Verdict {
    let mut config = scenario_config();
    config.metrics = Some(MetricsSourceConfig {
        source_type: MetricsSourceType::Prometheus,
        endpoint: "http://prometheus:9090".to_string(),
        queries: metrics_queries(),
    });
    let queries = &config.metrics.as_ref().unwrap().queries;
    let evals = evaluate_metrics_queries(queries, &checks);
    let tests: Vec<TestConfig> = queries.iter().map(|q| q.to_test_config()).collect();
    run(&config, &tests, evals, HEALTHY_LOG)
}

#[test]
fn e2e_metrics_promote_scenario() {
    // Both values under their thresholds (0.01 < 0.05, 0.5 < 1.0).
    let verdict = run_with_metrics(vec![
        MetricCheck::Compared { passes: true, detail: "metrics:error_rate value=0.0100 LessThan 0.0500".to_string() },
        MetricCheck::Compared { passes: true, detail: "metrics:latency_p99 value=0.5000 LessThan 1.0000".to_string() },
    ]);
    assert_eq!(verdict.recommendation, Recommendation::Promote);
    assert_eq!(verdict.total_cycles, 1);
    assert!(verdict.test_results.len() >= 4);
    assert_eq!(verdict.test_results[3].test_name, "metrics:error_rate");
}

#[test]
fn e2e_metrics_rollback_scenario() {
    // error_rate above its threshold (0.10 > 0.05); latency has no result.
    let verdict = run_with_metrics(vec![
        MetricCheck::Compared { passes: false, detail: "metrics:error_rate value=0.1000 LessThan 0.0500".to_string() },
        MetricCheck::NoResults,
    ]);
    assert_eq!(verdict.recommendation, Recommendation::Rollback);
    assert_eq!(verdict.total_cycles, 1);
    assert_eq!(verdict.test_results[4].result, TestResult::Unknown);
}

#[test]
fn one_cycle_pipeline_matches_the_steps() {
    let config = scenario_config();
    for log in [HEALTHY_LOG, PANIC_LOG, SILENT_LOG] {
        let raw: Vec<String> = log.lines().map(|s| s.to_string()).collect();
        let lines = LogReader::new(config.logging.format).read_lines(&raw);
        let direct = evaluate_cycle(&config, &lines);
        let stepwise = evaluate_scenario(log);
        assert_eq!(direct.recommendation, stepwise.recommendation);
        assert_eq!(direct.total_cycles, 1);
        assert_eq!(direct.reasoning, stepwise.reasoning);
        assert_eq!(direct.test_results.len(), 3);
    }
}
