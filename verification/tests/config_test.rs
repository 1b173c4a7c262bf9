use canary_gate::config::{
    default_fail_severity, default_log_format, default_start_mode, validate_config, AnalysisConfig,
    Config, EvaluationConfig, EventConfig, EventLevel, EventPresentAssertion, FailSeverity,
    LogFormat, LoggingConfig, LogstreamConfig, MatchCondition, MatchRule, MetricDirection,
    MetricsQuery, MetricsSourceConfig, MetricsSourceType, RecommendationConfig, StartMode,
    StatisticalComparison, TestAssertion, TestConfig, VerdictBias,
};
use canary_gate::error::Error;

fn present(event_type: &str) -> TestAssertion {
    TestAssertion {
        event_present: Some(EventPresentAssertion { event_type: event_type.to_string(), within: None }),
        event_absent: None,
        rate: None,
    }
}

fn test1() -> TestConfig {
    TestConfig { name: "test1".to_string(), severity: default_fail_severity(), assertions: vec![present("foo")] }
}

/// The configuration that `tests: [test1 with one event_present]` reads as,
/// every other field at its default.
fn minimal() -> Config {
    Config {
        logstream: LogstreamConfig::default(),
        evaluation: EvaluationConfig::default(),
        logging: LoggingConfig::default(),
        tests: vec![test1()],
        packs: vec![],
        overrides: vec![],
        recommendation: RecommendationConfig::default(),
        metrics: None,
        analysis: None,
    }
}

fn err_text(c: &Config) -> String {
    match validate_config(c) {
        Err(e) => e.to_string(),
        Ok(()) => panic!("expected a validation error"),
    }
}

fn contains(s: &str) -> MatchCondition {
    MatchCondition { contains: Some(s.to_string()), regex: None }
}

#[test]
fn invalid_missing_tests_fails() {
    let mut c = minimal();
    c.tests.clear();
    let err = err_text(&c);
    assert!(
        err.contains("at least one test, pack, metrics query, or comparison"),
        "Expected 'at least one test, pack, metrics query, or comparison', got: {}",
        err
    );
}

#[test]
fn defaults_applied_when_omitted() {
    let config = minimal();
    assert!(validate_config(&config).is_ok());
    assert_eq!(config.logstream.start, StartMode::Beginning);
    assert_eq!(config.logstream.lookback, "60s");
    assert_eq!(config.evaluation.interval, "30s");
    assert_eq!(config.evaluation.min_cycles, 5);
    assert_eq!(config.evaluation.max_duration, "15m");
    assert_eq!(config.logging.format, LogFormat::Auto);
    assert_eq!(config.recommendation.promote.require_min_cycles, 5);
    assert_eq!(config.recommendation.promote.require_consecutive_passes, 2);
    assert_eq!(config.recommendation.bias, VerdictBias::HoldOnAmbiguity);
    assert_eq!(config.recommendation.rollback.soft_fail_consecutive_cycles, 3);
    assert_eq!(default_start_mode(), StartMode::Beginning);
    assert_eq!(default_log_format(), LogFormat::Auto);
}

#[test]
fn test_severity_defaults_to_hard() {
    let config = minimal();
    assert_eq!(config.tests[0].severity, FailSeverity::Hard);
}

#[test]
fn event_config_with_all_combinators() {
    let mut config = minimal();
    config.logging.events.push(EventConfig {
        event_type: "combined_event".to_string(),
        level: EventLevel::Info,
        match_rule: MatchRule {
            any: vec![],
            all: vec![contains("ready"), contains("accepting")],
            none: vec![contains("error")],
        },
    });
    assert!(validate_config(&config).is_ok());
    assert_eq!(config.logging.events.len(), 1);
    assert_eq!(config.logging.events[0].match_rule.all.len(), 2);
    assert_eq!(config.logging.events[0].match_rule.none.len(), 1);
}

#[test]
fn empty_test_then_fails_validation() {
    let mut c = minimal();
    c.tests = vec![TestConfig { name: "empty_test".to_string(), severity: FailSeverity::Hard, assertions: vec![] }];
    assert!(validate_config(&c).is_err());
    assert_eq!(
        err_text(&c),
        "configuration error: test 'empty_test' must have at least one assertion in 'then'"
    );
}

#[test]
fn empty_assertion_fails_validation() {
    let mut c = minimal();
    c.tests = vec![TestConfig {
        name: "bad_assertion".to_string(),
        severity: FailSeverity::Hard,
        assertions: vec![TestAssertion { event_present: None, event_absent: None, rate: None }],
    }];
    assert!(validate_config(&c).is_err());
    assert_eq!(
        err_text(&c),
        "configuration error: test 'bad_assertion' has an empty assertion (must specify event_present, event_absent, or rate)"
    );
}

#[test]
fn invalid_regex_fails_validation() {
    let mut c = minimal();
    c.logging.events.push(EventConfig {
        event_type: "bad_regex".to_string(),
        level: EventLevel::Error,
        match_rule: MatchRule {
            any: vec![MatchCondition { contains: None, regex: Some("[invalid(regex".to_string()) }],
            all: vec![],
            none: vec![],
        },
    });
    c.tests[0].assertions = vec![present("bad_regex")];
    let err = err_text(&c);
    assert!(err.contains("invalid regex"), "Expected 'invalid regex', got: {}", err);
    assert_eq!(err, "configuration error: event 'bad_regex' has invalid regex '[invalid(regex'");
}

#[test]
fn zero_min_cycles_fails_validation() {
    let mut c = minimal();
    c.recommendation.promote.require_min_cycles = 0;
    c.recommendation.promote.require_consecutive_passes = 2;
    let err = err_text(&c);
    assert!(err.contains("require_min_cycles"), "Expected 'require_min_cycles', got: {}", err);
}

#[test]
fn zero_consecutive_passes_fails_validation() {
    let mut c = minimal();
    c.recommendation.promote.require_min_cycles = 5;
    c.recommendation.promote.require_consecutive_passes = 0;
    let err = err_text(&c);
    assert!(
        err.contains("require_consecutive_passes"),
        "Expected 'require_consecutive_passes', got: {}",
        err
    );
}

#[test]
fn empty_match_rule_fails_validation() {
    let mut c = minimal();
    c.logging.events.push(EventConfig {
        event_type: "empty_match".to_string(),
        level: EventLevel::Info,
        match_rule: MatchRule { any: vec![], all: vec![], none: vec![] },
    });
    c.tests[0].assertions = vec![present("empty_match")];
    let err = err_text(&c);
    assert!(err.contains("match rule"), "Expected 'match rule', got: {}", err);
}

// --- further cases ---

#[test]
fn packs_or_queries_or_comparisons_suffice() {
    let mut c = minimal();
    c.tests.clear();
    c.packs.push("runtime-basic".to_string());
    assert!(validate_config(&c).is_ok());

    let mut c = minimal();
    c.tests.clear();
    c.metrics = Some(MetricsSourceConfig {
        source_type: MetricsSourceType::Prometheus,
        endpoint: "http://localhost:9090".to_string(),
        queries: vec![],
    });
    assert!(validate_config(&c).is_err());
    c.metrics.as_mut().unwrap().queries.push(MetricsQuery {
        name: "q".to_string(),
        query: "up".to_string(),
        operator: None,
        severity: FailSeverity::Soft,
    });
    assert!(validate_config(&c).is_ok());

    let mut c = minimal();
    c.tests.clear();
    c.analysis = Some(AnalysisConfig {
        comparisons: vec![StatisticalComparison {
            name: "latency".to_string(),
            baseline_query: "b".to_string(),
            canary_query: "c".to_string(),
            direction: MetricDirection::IncreaseBad,
            severity: FailSeverity::Hard,
        }],
    });
    assert!(validate_config(&c).is_ok());
}

#[test]
fn event_problems_are_reported_before_test_problems() {
    let mut c = minimal();
    c.tests[0].assertions.clear();
    c.logging.events.push(EventConfig {
        event_type: "e".to_string(),
        level: EventLevel::Info,
        match_rule: MatchRule { any: vec![], all: vec![], none: vec![] },
    });
    assert_eq!(
        err_text(&c),
        "configuration error: event 'e' must have at least one match rule (any, all, or none)"
    );
}

#[test]
fn valid_regex_passes_validation() {
    let mut c = minimal();
    c.logging.events.push(EventConfig {
        event_type: "http_error".to_string(),
        level: EventLevel::Error,
        match_rule: MatchRule {
            any: vec![],
            all: vec![],
            none: vec![MatchCondition { contains: None, regex: Some(r"status=5\d{2}".to_string()) }],
        },
    });
    assert!(validate_config(&c).is_ok());
}

#[test]
fn error_messages_name_their_kind() {
    assert_eq!(Error::Config("x".to_string()).to_string(), "configuration error: x");
    assert_eq!(Error::Ingestion("x".to_string()).to_string(), "ingestion error: x");
    assert_eq!(Error::Classification("x".to_string()).to_string(), "classification error: x");
    assert_eq!(Error::Behavior("x".to_string()).to_string(), "behavior test error: x");
    assert_eq!(Error::Recommendation("x".to_string()).to_string(), "recommendation error: x");
    assert_eq!(Error::Metrics("x".to_string()).to_string(), "metrics error: x");
}
