use canary_gate::classification::{classify_line, classify_stream, CompiledRules};
use canary_gate::config::{EventConfig, EventLevel, MatchCondition, MatchRule};
use canary_gate::events::fingerprint;
use canary_gate::ingestion::RawLogLine;

/// Helper to classify with pre-compiled rules.
fn classify(
    line: &RawLogLine,
    rules: &[EventConfig],
) -> Option<canary_gate::events::CanonicalEvent> {
    let compiled = CompiledRules::new(rules);
    classify_line(line, rules, &compiled)
}

fn make_line(content: &str) -> RawLogLine {
    RawLogLine {
        content: content.to_string(),
        line_number: 1,
        timestamp: Some("2024-01-15T10:30:00Z".to_string()),
        is_json: false,
        source: None,
    }
}

fn grpc_rule() -> EventConfig {
    EventConfig {
        event_type: "grpc_server_started".to_string(),
        level: EventLevel::Info,
        match_rule: MatchRule {
            any: vec![
                MatchCondition {
                    contains: Some("gRPC server listening".to_string()),
                    regex: None,
                },
                MatchCondition {
                    contains: Some("Started gRPC server".to_string()),
                    regex: None,
                },
            ],
            all: vec![],
            none: vec![],
        },
    }
}

fn panic_rule() -> EventConfig {
    EventConfig {
        event_type: "panic".to_string(),
        level: EventLevel::Fatal,
        match_rule: MatchRule {
            any: vec![
                MatchCondition {
                    contains: Some("panic:".to_string()),
                    regex: None,
                },
                MatchCondition {
                    contains: Some("fatal error".to_string()),
                    regex: None,
                },
            ],
            all: vec![],
            none: vec![],
        },
    }
}

#[test]
fn classify_matching_line() {
    let rules = vec![grpc_rule()];
    let line = make_line("2024-01-15 INFO gRPC server listening on 0.0.0.0:50051");
    let event = classify(&line, &rules);
    assert!(event.is_some());
    let event = event.unwrap();
    assert_eq!(event.event_type, "grpc_server_started");
    assert_eq!(event.level, EventLevel::Info);
}

#[test]
fn classify_nonmatching_line() {
    let rules = vec![grpc_rule()];
    let line = make_line("2024-01-15 INFO Loading configuration");
    let event = classify(&line, &rules);
    assert!(event.is_none());
}

#[test]
fn first_match_wins() {
    // Both rules could match a line with "panic:" — first one wins
    let broad_rule = EventConfig {
        event_type: "broad_error".to_string(),
        level: EventLevel::Error,
        match_rule: MatchRule {
            any: vec![MatchCondition {
                contains: Some("panic:".to_string()),
                regex: None,
            }],
            all: vec![],
            none: vec![],
        },
    };
    let rules = vec![broad_rule, panic_rule()];
    let line = make_line("panic: something went wrong");
    let event = classify(&line, &rules).unwrap();
    assert_eq!(event.event_type, "broad_error");
}

#[test]
fn fingerprint_determinism() {
    let fp1 = fingerprint("grpc_server_started", &EventLevel::Info);
    let fp2 = fingerprint("grpc_server_started", &EventLevel::Info);
    assert_eq!(fp1, fp2);
}

#[test]
fn fingerprint_differs_by_type() {
    let fp1 = fingerprint("grpc_server_started", &EventLevel::Info);
    let fp2 = fingerprint("http_server_started", &EventLevel::Info);
    assert_ne!(fp1, fp2);
}

#[test]
fn fingerprint_differs_by_level() {
    let fp1 = fingerprint("event", &EventLevel::Info);
    let fp2 = fingerprint("event", &EventLevel::Error);
    assert_ne!(fp1, fp2);
}

#[test]
fn classify_stream_filters_unmatched() {
    let rules = vec![grpc_rule(), panic_rule()];
    let lines = vec![
        make_line("INFO Loading config"),
        make_line("INFO gRPC server listening on 0.0.0.0:50051"),
        make_line("DEBUG Some debug log"),
        make_line("FATAL panic: runtime error"),
    ];
    let events = classify_stream(&lines, &rules);
    assert_eq!(events.len(), 2);
    assert_eq!(events[0].event_type, "grpc_server_started");
    assert_eq!(events[1].event_type, "panic");
}

#[test]
fn any_combinator_matches_any_condition() {
    let rules = vec![grpc_rule()];
    // Should match second condition
    let line = make_line("Started gRPC server on port 50051");
    let event = classify(&line, &rules);
    assert!(event.is_some());
}

#[test]
fn all_combinator_requires_all_conditions() {
    let rule = EventConfig {
        event_type: "ready".to_string(),
        level: EventLevel::Info,
        match_rule: MatchRule {
            any: vec![],
            all: vec![
                MatchCondition {
                    contains: Some("ready".to_string()),
                    regex: None,
                },
                MatchCondition {
                    contains: Some("accepting".to_string()),
                    regex: None,
                },
            ],
            none: vec![],
        },
    };

    // Both conditions present
    let line1 = make_line("Service ready, accepting connections");
    assert!(classify(&line1, &[rule.clone()]).is_some());

    // Only one condition present — "accepting" is not in this line
    let line2 = make_line("Service ready, but still initializing");
    assert!(classify(&line2, &[rule.clone()]).is_none());
}

#[test]
fn none_combinator_excludes_matching() {
    let rule = EventConfig {
        event_type: "startup".to_string(),
        level: EventLevel::Info,
        match_rule: MatchRule {
            any: vec![MatchCondition {
                contains: Some("starting".to_string()),
                regex: None,
            }],
            all: vec![],
            none: vec![MatchCondition {
                contains: Some("error".to_string()),
                regex: None,
            }],
        },
    };

    // Matches 'any' but not excluded by 'none'
    let line1 = make_line("starting service");
    assert!(classify(&line1, &[rule.clone()]).is_some());

    // Matches 'any' but also matches 'none' exclusion
    let line2 = make_line("starting service with error");
    assert!(classify(&line2, &[rule]).is_none());
}

#[test]
fn regex_match_condition() {
    let rule = EventConfig {
        event_type: "http_error".to_string(),
        level: EventLevel::Error,
        match_rule: MatchRule {
            any: vec![MatchCondition {
                contains: None,
                regex: Some(r"status=5\d{2}".to_string()),
            }],
            all: vec![],
            none: vec![],
        },
    };

    let line1 = make_line("request completed status=500 method=GET");
    assert!(classify(&line1, &[rule.clone()]).is_some());

    let line2 = make_line("request completed status=200 method=GET");
    assert!(classify(&line2, &[rule]).is_none());
}

// --- further cases ---

fn rule(event_type: &str, any: Vec<MatchCondition>, all: Vec<MatchCondition>, none: Vec<MatchCondition>) -> EventConfig {
    EventConfig {
        event_type: event_type.to_string(),
        level: EventLevel::Warn,
        match_rule: MatchRule { any, all, none },
    }
}

fn contains(s: &str) -> MatchCondition {
    MatchCondition { contains: Some(s.to_string()), regex: None }
}

fn regex(s: &str) -> MatchCondition {
    MatchCondition { contains: None, regex: Some(s.to_string()) }
}

#[test]
fn fingerprint_is_sixteen_lowercase_hex_digits() {
    let fp = fingerprint("grpc_server_started", &EventLevel::Info);
    assert_eq!(fp.len(), 16);
    assert!(fp.chars().all(|c| c.is_ascii_digit() || ('a'..='f').contains(&c)));
}

#[test]
fn fingerprint_is_sha256_prefix_of_type_and_level() {
    // The first sixteen hex digits of SHA-256("a:info") and of
    // SHA-256("grpc_server_started:info").
    assert_eq!(fingerprint("a", &EventLevel::Info), "528b0315f1de52c5");
    assert_eq!(fingerprint("grpc_server_started", &EventLevel::Info), "f1687c2c7253968f");
}

#[test]
fn classified_event_carries_line_and_rule_data() {
    let rules = vec![rule("warned", vec![contains("warn")], vec![], vec![])];
    let line = make_line("a warning here");
    let e = classify(&line, &rules).unwrap();
    assert_eq!(e.event_type, "warned");
    assert_eq!(e.level, EventLevel::Warn);
    assert_eq!(e.timestamp, "2024-01-15T10:30:00Z");
    assert_eq!(e.raw_line.as_deref(), Some("a warning here"));
    assert_eq!(e.fingerprint, fingerprint("warned", &EventLevel::Warn));
}

#[test]
fn line_without_timestamp_gets_epoch() {
    let rules = vec![rule("x", vec![contains("x")], vec![], vec![])];
    let mut line = make_line("x");
    line.timestamp = None;
    let e = classify(&line, &rules).unwrap();
    assert_eq!(e.timestamp, "1970-01-01T00:00:00Z");
}

#[test]
fn empty_rule_matches_every_line() {
    let rules = vec![rule("always", vec![], vec![], vec![])];
    assert!(classify(&make_line("anything at all"), &rules).is_some());
}

#[test]
fn only_none_conditions_match_lines_without_them() {
    let rules = vec![rule("clean", vec![], vec![], vec![contains("zzz")])];
    assert!(classify(&make_line("anything"), &rules).is_some());
    assert!(classify(&make_line("has zzz"), &rules).is_none());
}

#[test]
fn any_and_all_both_required() {
    let r = rule("both", vec![contains("a")], vec![contains("b")], vec![]);
    assert!(classify(&make_line("a b"), &[r.clone()]).is_some());
    assert!(classify(&make_line("a only"), &[r.clone()]).is_some() == false);
    assert!(classify(&make_line("b only"), &[r]).is_none());
}

#[test]
fn condition_with_both_contains_and_regex_needs_either() {
    let c = MatchCondition { contains: Some("status".to_string()), regex: Some(r"\d+".to_string()) };
    let r = rule("either", vec![c], vec![], vec![]);
    assert!(classify(&make_line("status 500"), &[r.clone()]).is_some());
    assert!(classify(&make_line("status ok"), &[r.clone()]).is_some());
    assert!(classify(&make_line("code 500"), &[r.clone()]).is_some());
    assert!(classify(&make_line("code ok"), &[r]).is_none());
}

#[test]
fn invalid_regex_never_matches() {
    let r = rule("bad", vec![regex("(unclosed")], vec![], vec![]);
    let compiled = CompiledRules::new(&[r.clone()]);
    assert!(compiled.patterns.is_empty());
    assert!(classify(&make_line("(unclosed"), &[r]).is_none());
}

#[test]
fn compiled_rules_hold_each_valid_pattern_once() {
    let rules = vec![
        rule("a", vec![regex("x+")], vec![regex("y")], vec![]),
        rule("b", vec![regex("x+"), regex("[")], vec![], vec![]),
    ];
    let compiled = CompiledRules::new(&rules);
    let mut p = compiled.patterns.clone();
    p.sort();
    assert_eq!(p, vec!["x+".to_string(), "y".to_string()]);
}

#[test]
fn classify_stream_keeps_order_and_empty_input() {
    let rules = vec![rule("a", vec![contains("a")], vec![], vec![])];
    assert!(classify_stream(&[], &rules).is_empty());
    let lines = vec![make_line("a1"), make_line("b"), make_line("a2")];
    let events = classify_stream(&lines, &rules);
    assert_eq!(events.len(), 2);
    assert_eq!(events[0].raw_line.as_deref(), Some("a1"));
    assert_eq!(events[1].raw_line.as_deref(), Some("a2"));
}
