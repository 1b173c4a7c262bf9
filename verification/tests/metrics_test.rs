use canary_gate::behavior::TestResult;
use canary_gate::config::{FailSeverity, MetricsQuery, RateOperator};
use canary_gate::metrics::{evaluate_metrics_queries, metrics_query_evaluation, statistical_evaluation, MetricCheck};
use canary_gate::metrics::prometheus::{
    parse_prometheus_response, parse_range_values, PromRangeResponse, PromRangeResult, PromResponse, PromResult, PromSample,
};
use canary_gate::stats::scoring::{classify_change, MetricClassification, Significance};

fn query(name: &str) -> MetricsQuery {
    MetricsQuery {
        name: name.to_string(),
        query: "up".to_string(),
        operator: Some(RateOperator::LessThan),
        severity: FailSeverity::Soft,
    }
}

#[test]
fn metrics_query_without_results_is_unknown() {
    let e = metrics_query_evaluation(&query("error_rate"), &MetricCheck::NoResults);
    assert_eq!(e.test_name, "metrics:error_rate");
    assert_eq!(e.result, TestResult::Unknown);
    assert_eq!(e.assertion_results.len(), 1);
    assert_eq!(e.assertion_results[0].description, "metrics query 'error_rate': no results");
    assert_eq!(e.assertion_results[0].result, TestResult::Unknown);
}

#[test]
fn metrics_query_without_threshold_is_unknown() {
    let e = metrics_query_evaluation(&query("q"), &MetricCheck::NoThreshold);
    assert_eq!(e.result, TestResult::Unknown);
    assert_eq!(e.assertion_results[0].description, "metrics query 'q': no threshold/operator configured");
}

#[test]
fn metrics_query_comparison_decides() {
    let pass = metrics_query_evaluation(
        &query("q"),
        &MetricCheck::Compared { passes: true, detail: "metrics:q value=0.0100 LessThan 0.0500".to_string() },
    );
    assert_eq!(pass.result, TestResult::Pass);
    assert_eq!(pass.assertion_results[0].description, "metrics:q value=0.0100 LessThan 0.0500");
    assert_eq!(pass.assertion_results[0].result, TestResult::Pass);
    let fail = metrics_query_evaluation(
        &query("q"),
        &MetricCheck::Compared { passes: false, detail: "d".to_string() },
    );
    assert_eq!(fail.result, TestResult::Fail);
    assert_eq!(fail.assertion_results[0].result, TestResult::Fail);
}

#[test]
fn metrics_queries_evaluated_in_order() {
    let qs = vec![query("a"), query("b")];
    let es = evaluate_metrics_queries(&qs, &[MetricCheck::NoResults, MetricCheck::Compared { passes: true, detail: "ok".to_string() }]);
    assert_eq!(es.len(), 2);
    assert_eq!(es[0].test_name, "metrics:a");
    assert_eq!(es[0].result, TestResult::Unknown);
    assert_eq!(es[1].test_name, "metrics:b");
    assert_eq!(es[1].result, TestResult::Pass);
    assert!(evaluate_metrics_queries(&[], &[]).is_empty());
}

#[test]
fn query_test_config_names_and_severity() {
    let t = query("latency").to_test_config();
    assert_eq!(t.name, "metrics:latency");
    assert_eq!(t.severity, FailSeverity::Soft);
    assert!(t.assertions.is_empty());
}

#[test]
fn statistical_evaluation_fails_only_on_fail() {
    let d = "Mann-Whitney U: p=0.0010, baseline_mean=1.0000, canary_mean=2.0000".to_string();
    let f = statistical_evaluation("latency", MetricClassification::Fail, d.clone());
    assert_eq!(f.test_name, "stats:latency");
    assert_eq!(f.result, TestResult::Fail);
    assert_eq!(f.assertion_results[0].description, d);
    let m = statistical_evaluation("latency", MetricClassification::Marginal, "x".to_string());
    assert_eq!(m.result, TestResult::Pass);
    let p = statistical_evaluation("latency", MetricClassification::Pass, "x".to_string());
    assert_eq!(p.result, TestResult::Pass);
}

#[test]
fn strong_change_in_bad_direction_fails() {
    // p < 0.01 and the canary moved in the bad direction.
    assert_eq!(classify_change(Significance::Strong, false), MetricClassification::Fail);
}

#[test]
fn strong_change_in_good_direction_passes() {
    assert_eq!(classify_change(Significance::Strong, true), MetricClassification::Pass);
}

#[test]
fn weak_change_is_marginal_only_in_bad_direction() {
    assert_eq!(classify_change(Significance::Weak, false), MetricClassification::Marginal);
    assert_eq!(classify_change(Significance::Weak, true), MetricClassification::Pass);
}

#[test]
fn insignificant_change_passes() {
    assert_eq!(classify_change(Significance::NotSignificant, false), MetricClassification::Pass);
    assert_eq!(classify_change(Significance::NotSignificant, true), MetricClassification::Pass);
}

// --- Prometheus responses ---

/// The fields of a JSON instant query response that the parser reads.
fn response(json: &str) -> PromResponse {
    let body: serde_json::Value = serde_json::from_str(json).unwrap();
    let data = body.get("data");
    PromResponse {
        status: body.get("status").and_then(|v| v.as_str()).map(String::from),
        error: body.get("error").and_then(|v| v.as_str()).map(String::from),
        has_data: data.is_some(),
        result_type: data.and_then(|d| d.get("resultType")).and_then(|v| v.as_str()).map(String::from),
        results: data.and_then(|d| d.get("result")).and_then(|v| v.as_array()).map(|a| {
            a.iter()
                .map(|r| PromResult {
                    labels: r.get("metric").and_then(|v| v.as_object()).map(|m| {
                        m.iter().map(|(k, v)| (k.clone(), v.as_str().map(String::from))).collect()
                    }),
                    value: r
                        .get("value")
                        .and_then(|v| v.as_array())
                        .map(|a| a.iter().map(|e| e.as_str().map(String::from)).collect()),
                })
                .collect()
        }),
    }
}

fn value(s: &PromSample) -> f64 {
    s.value_text.as_deref().and_then(|t| t.parse::<f64>().ok()).unwrap_or(0.0)
}

fn label<'a>(s: &'a PromSample, k: &str) -> Option<&'a str> {
    s.labels.iter().find(|(key, _)| key == k).map(|(_, v)| v.as_str())
}

const HEALTHY: &str = r#"{"status":"success","data":{"resultType":"vector","result":[
  {"metric":{"__name__":"http_requests_total","method":"GET","status":"200"},"value":[1705312200.000,"1542"]},
  {"metric":{"__name__":"http_requests_total","method":"POST","status":"200"},"value":[1705312200.000,"328"]}]}}"#;

#[test]
fn parse_healthy_response() {
    let results = parse_prometheus_response(&response(HEALTHY)).unwrap();
    assert_eq!(results.len(), 2);
    assert_eq!(results[0].name, "http_requests_total");
    assert_eq!(value(&results[0]), 1542.0);
    assert_eq!(value(&results[1]), 328.0);
}

#[test]
fn parse_error_rate_spike() {
    let json = r#"{"status":"success","data":{"resultType":"vector","result":[
      {"metric":{"__name__":"http_errors_total","status":"500"},"value":[1705312200.000,"47"]},
      {"metric":{"__name__":"http_errors_total","status":"503"},"value":[1705312200.000,"12"]}]}}"#;
    let results = parse_prometheus_response(&response(json)).unwrap();
    assert_eq!(results.len(), 2);
    assert_eq!(results[0].name, "http_errors_total");
    assert_eq!(value(&results[0]), 47.0);
}

#[test]
fn parse_latency_degradation() {
    let json = r#"{"status":"success","data":{"resultType":"vector","result":[
      {"metric":{"__name__":"http_request_duration_seconds","quantile":"0.99"},"value":[1705312200.000,"4.25"]}]}}"#;
    let results = parse_prometheus_response(&response(json)).unwrap();
    assert_eq!(results.len(), 1);
    assert_eq!(value(&results[0]), 4.25);
}

#[test]
fn parse_error_response() {
    let result = parse_prometheus_response(&response(r#"{"status": "error", "error": "bad query", "errorType": "bad_data"}"#));
    assert!(result.is_err());
    assert!(result.unwrap_err().to_string().contains("bad query"));
}

#[test]
fn parse_empty_result() {
    let results =
        parse_prometheus_response(&response(r#"{"status": "success", "data": {"resultType": "vector", "result": []}}"#)).unwrap();
    assert!(results.is_empty());
}

#[test]
fn metric_labels_extracted() {
    let results = parse_prometheus_response(&response(HEALTHY)).unwrap();
    assert_eq!(label(&results[0], "method"), Some("GET"));
    assert_eq!(label(&results[0], "status"), Some("200"));
}

#[test]
fn prometheus_structure_errors_and_defaults() {
    let err = |j: &str| parse_prometheus_response(&response(j)).unwrap_err().to_string();
    assert_eq!(err(r#"{"status":"error"}"#), "metrics error: Prometheus query failed: unknown error");
    assert_eq!(err(r#"{}"#), "metrics error: Prometheus query failed: unknown error");
    assert_eq!(err(r#"{"status":"success"}"#), "metrics error: missing 'data' field in Prometheus response");
    assert_eq!(
        err(r#"{"status":"success","data":{"result":{}}}"#),
        "metrics error: missing 'result' array in Prometheus response"
    );
    let r = parse_prometheus_response(&response(
        r#"{"status":"success","data":{"result":[{"metric":{"job":5},"value":[1,"7"]},{"value":"x"}]}}"#,
    ))
    .unwrap();
    assert_eq!(r[0].name, "unnamed");
    assert_eq!(label(&r[0], "job"), Some(""));
    assert_eq!(r[0].value_text.as_deref(), Some("7"));
    assert_eq!(r[1].value_text, None);
    assert!(r[1].labels.is_empty());
    let m = parse_prometheus_response(&response(
        r#"{"status":"success","data":{"resultType":"matrix","result":[{"metric":{"__name__":"a"},"value":[1,"7"]}]}}"#,
    ))
    .unwrap();
    assert_eq!(m[0].name, "a");
    assert_eq!(m[0].value_text, None);
}

#[test]
fn range_values_are_flattened_in_order() {
    let rr = |rs: Vec<Option<Vec<Option<Vec<Option<&str>>>>>>| PromRangeResponse {
        status: Some("success".to_string()),
        error: None,
        has_data: true,
        results: Some(
            rs.into_iter()
                .map(|v| PromRangeResult {
                    values: v.map(|ps| {
                        ps.into_iter()
                            .map(|p| p.map(|e| e.into_iter().map(|x| x.map(String::from)).collect()))
                            .collect()
                    }),
                })
                .collect(),
        ),
    };
    let body = rr(vec![
        Some(vec![Some(vec![None, Some("1.5")]), None, Some(vec![None]), Some(vec![None, Some("2")])]),
        None,
        Some(vec![Some(vec![None, Some("x")])]),
    ]);
    assert_eq!(parse_range_values(&body).unwrap(), vec!["1.5".to_string(), "2".to_string(), "x".to_string()]);
    let mut failed = rr(vec![]);
    failed.status = Some("error".to_string());
    failed.error = Some("timeout".to_string());
    assert_eq!(parse_range_values(&failed).unwrap_err().to_string(), "metrics error: Prometheus range query failed: timeout");
    let mut no_data = rr(vec![]);
    no_data.has_data = false;
    assert_eq!(parse_range_values(&no_data).unwrap_err().to_string(), "metrics error: missing 'data' field in range response");
    let mut no_result = rr(vec![]);
    no_result.results = None;
    assert_eq!(parse_range_values(&no_result).unwrap_err().to_string(), "metrics error: missing 'result' array in range response");
}

#[test]
fn classification_counts_by_kind() {
    let cs = [MetricClassification::Pass, MetricClassification::Fail, MetricClassification::Pass, MetricClassification::Marginal];
    assert_eq!(canary_gate::stats::scoring::classification_counts(&cs), (2, 1, 1));
    assert_eq!(canary_gate::stats::scoring::classification_counts(&[]), (0, 0, 0));
}
