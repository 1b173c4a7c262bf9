//! Turning metric query outcomes into test evaluations.

use vstd::prelude::*;
use vstd::string::*;

use crate::behavior::{AssertionResult, TestEvaluation, TestResult};
use crate::config::{MetricsQuery, TestConfig};
use crate::stats::scoring::MetricClassification;

pub mod prometheus;

verus! {

/// What the numeric check of a metrics query found.
#[derive(Clone, Debug)]
pub enum MetricCheck {
    /// No result carries the query's name.
    NoResults,
    /// The query has no threshold or no operator.
    NoThreshold,
    /// The worst value was compared with the threshold; `detail` tells how.
    Compared { passes: bool, detail: String },
}

/// The test evaluation of a metrics query: named `metrics:<name>`, unknown
/// without results or threshold, else pass or fail as the comparison went,
/// with one assertion result telling why.
pub open spec fn metrics_evaluation_spec(name: Seq<char>, check: MetricCheck) -> (
    Seq<char>,
    TestResult,
    Seq<char>,
) {
    match check {
        MetricCheck::NoResults => (
            "metrics:"@ + name,
            TestResult::Unknown,
            "metrics query '"@ + name + "': no results"@,
        ),
        MetricCheck::NoThreshold => (
            "metrics:"@ + name,
            TestResult::Unknown,
            "metrics query '"@ + name + "': no threshold/operator configured"@,
        ),
        MetricCheck::Compared { passes, detail } => (
            "metrics:"@ + name,
            if passes {
                TestResult::Pass
            } else {
                TestResult::Fail
            },
            detail@,
        ),
    }
}

impl MetricsQuery {
    /// The test configuration under which a query's evaluation is recorded:
    /// named `metrics:<name>`, with the query's severity and no assertions.
    pub fn to_test_config(&self) -> (t: TestConfig)
        ensures
            t.name@ == "metrics:"@ + self.name@,
            t.severity == self.severity,
            t.assertions@.len() == 0,
    {
        let mut name = String::from_str("metrics:");
        name.append(self.name.as_str());
        TestConfig { name, severity: self.severity, assertions: Vec::new() }
    }
}

/// The test evaluation of one metrics query from its check.
pub fn metrics_query_evaluation(query: &MetricsQuery, check: &MetricCheck) -> (e: TestEvaluation)
    ensures
        ({
            let (n, r, d) = metrics_evaluation_spec(query.name@, *check);
            &&& e.test_name@ == n
            &&& e.result == r
            &&& e@.assertion_results == seq![(d, r)]
        }),
{
    let ghost spec = metrics_evaluation_spec(query.name@, *check);
    let mut test_name = String::from_str("metrics:");
    test_name.append(query.name.as_str());
    let (result, description) = match check {
        MetricCheck::NoResults => {
            let mut d = String::from_str("metrics query '");
            d.append(query.name.as_str());
            d.append("': no results");
            (TestResult::Unknown, d)
        },
        MetricCheck::NoThreshold => {
            let mut d = String::from_str("metrics query '");
            d.append(query.name.as_str());
            d.append("': no threshold/operator configured");
            (TestResult::Unknown, d)
        },
        MetricCheck::Compared { passes, detail } => {
            (if *passes {
                TestResult::Pass
            } else {
                TestResult::Fail
            }, detail.clone())
        },
    };
    let mut assertion_results: Vec<AssertionResult> = Vec::new();
    assertion_results.push(AssertionResult { description, result });
    let e = TestEvaluation { test_name, result, assertion_results };
    assert(e@.assertion_results =~= seq![(spec.2, spec.1)]);
    e
}

/// Evaluates the metrics queries from their checks, one evaluation per
/// query, in order.
pub fn evaluate_metrics_queries(queries: &[MetricsQuery], checks: &[MetricCheck]) -> (r: Vec<
    TestEvaluation,
>)
    requires
        checks@.len() == queries@.len(),
    ensures
        r@.len() == queries@.len(),
        forall|i: int|
            0 <= i < queries@.len() ==> {
                let (n, res, d) = #[trigger] metrics_evaluation_spec(queries@[i].name@, checks@[i]);
                &&& r@[i].test_name@ == n
                &&& r@[i].result == res
                &&& r@[i]@.assertion_results == seq![(d, res)]
            },
{
    let ghost cs = checks@;
    let mut out: Vec<TestEvaluation> = Vec::new();
    let mut i: usize = 0;
    while i < queries.len()
        invariant
            i <= queries@.len(),
            cs == checks@,
            cs.len() == queries@.len(),
            out@.len() == i,
            forall|j: int|
                0 <= j < i ==> {
                    let (n, res, d) = #[trigger] metrics_evaluation_spec(queries@[j].name@, cs[j]);
                    &&& out@[j].test_name@ == n
                    &&& out@[j].result == res
                    &&& out@[j]@.assertion_results == seq![(d, res)]
                },
        decreases queries.len() - i,
    {
        out.push(metrics_query_evaluation(&queries[i], &checks[i]));
        i = i + 1;
    }
    out
}

/// The test evaluation of a statistical comparison: named `stats:<name>`,
/// failing only when classified as a failure, with one assertion result
/// holding `detail`.
pub fn statistical_evaluation(name: &str, classification: MetricClassification, detail: String) -> (e:
    TestEvaluation)
    ensures
        e.test_name@ == "stats:"@ + name@,
        e.result == if classification == MetricClassification::Fail {
            TestResult::Fail
        } else {
            TestResult::Pass
        },
        e@.assertion_results == seq![(detail@, e.result)],
{
    let mut test_name = String::from_str("stats:");
    test_name.append(name);
    let result = match classification {
        MetricClassification::Fail => TestResult::Fail,
        _ => TestResult::Pass,
    };
    let ghost d = detail@;
    let mut assertion_results: Vec<AssertionResult> = Vec::new();
    assertion_results.push(AssertionResult { description: detail, result });
    let e = TestEvaluation { test_name, result, assertion_results };
    assert(e@.assertion_results =~= seq![(d, result)]);
    e
}

} // verus!
