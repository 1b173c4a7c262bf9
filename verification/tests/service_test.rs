use canary_gate::api::{error_response, health_response, PaginationParams};
use canary_gate::behavior::{TestEvaluation, TestResult};
use canary_gate::cli::{ERROR, HOLD, PROMOTE, ROLLBACK};
use canary_gate::db::{evaluation_row, history_query};
use canary_gate::recommendation::Recommendation;
use canary_gate::verdict::Verdict;

#[test]
fn error_envelope_holds_code_and_message() {
    let r = error_response("NOT_FOUND", "no evaluation found");
    assert_eq!(r.error.code, "NOT_FOUND");
    assert_eq!(r.error.message, "no evaluation found");
}

#[test]
fn health_report_is_ok() {
    let h = health_response("0.1.0", 42);
    assert_eq!(h.status, "ok");
    assert_eq!(h.version, "0.1.0");
    assert_eq!(h.uptime_seconds, 42);
}

#[test]
fn page_limit_defaults_to_twenty() {
    let mut p = PaginationParams { limit: None, offset: None, deployment_id: None, verdict: None, since: None };
    assert_eq!(p.page_limit(), 20);
    p.limit = Some(5);
    assert_eq!(p.page_limit(), 5);
    p.limit = Some(0);
    assert_eq!(p.page_limit(), 0);
}

#[test]
fn exit_code_constants() {
    assert_eq!((PROMOTE, HOLD, ROLLBACK, ERROR), (0, 1, 2, 3));
}

#[test]
fn evaluation_row_stores_verdict_values() {
    let verdict = Verdict {
        recommendation: Recommendation::Rollback,
        total_cycles: 4,
        consecutive_passes: 0,
        test_results: vec![TestEvaluation { test_name: "t".to_string(), result: TestResult::Fail, assertion_results: vec![] }],
        reasoning: vec!["Soft-fail test 'a' failed for 3 consecutive cycles".to_string(), "second".to_string()],
    };
    let row = evaluation_row(&verdict);
    assert_eq!(row.recommendation, "rollback");
    assert_eq!(row.total_cycles, 4);
    assert_eq!(row.consecutive_passes, 0);
    assert_eq!(row.reasoning, verdict.reasoning);
    let promote = Verdict { recommendation: Recommendation::Promote, ..verdict.clone() };
    assert_eq!(evaluation_row(&promote).recommendation, "promote");
    let hold = Verdict { recommendation: Recommendation::Hold, ..verdict };
    assert_eq!(evaluation_row(&hold).recommendation, "hold");
}

#[test]
fn history_query_adds_given_filters_in_order() {
    let base = "SELECT id, deployment_id, config_hash, recommendation, total_cycles, consecutive_passes, reasoning, created_at\n             FROM evaluations WHERE 1=1";
    let q = history_query(None, None, None);
    assert_eq!(q.sql, format!("{base} ORDER BY created_at DESC LIMIT ?"));
    assert!(q.params.is_empty());
    let q = history_query(Some("deploy-a"), None, Some("2024-01-01T00:00:00Z"));
    assert_eq!(
        q.sql,
        format!("{base} AND deployment_id = ? AND created_at >= ? ORDER BY created_at DESC LIMIT ?")
    );
    assert_eq!(q.params, vec!["deploy-a".to_string(), "2024-01-01T00:00:00Z".to_string()]);
    let q = history_query(Some("d"), Some("rollback"), Some("s"));
    assert_eq!(q.params, vec!["d".to_string(), "rollback".to_string(), "s".to_string()]);
    assert!(q.sql.contains(" AND recommendation = ?"));
}
