//! Behavioral test engine: evaluates test assertions over classified events.

use vstd::prelude::*;
use vstd::string::*;

use crate::config::{RateOperator, TestAssertion, TestConfig, Threshold};
use crate::events::CanonicalEvent;

pub use crate::metrics::{evaluate_metrics_queries, statistical_evaluation, MetricCheck};

verus! {

/// Result of a single test evaluation.
#[derive(Clone, Copy, Debug, PartialEq, Eq, Structural)]
pub enum TestResult {
    Pass,
    Fail,
    Unknown,
}

/// Result of a single assertion within a test.
#[derive(Clone, Debug)]
pub struct AssertionResult {
    pub description: String,
    pub result: TestResult,
}

/// Result of evaluating a full test (name + individual assertion results).
#[derive(Clone, Debug)]
pub struct TestEvaluation {
    pub test_name: String,
    pub result: TestResult,
    pub assertion_results: Vec<AssertionResult>,
}

/// Abstract value of a test evaluation.
pub struct EvaluationView {
    pub test_name: Seq<char>,
    pub result: TestResult,
    pub assertion_results: Seq<(Seq<char>, TestResult)>,
}

impl View for AssertionResult {
    type V = (Seq<char>, TestResult);

    open spec fn view(&self) -> (Seq<char>, TestResult) {
        (self.description@, self.result)
    }
}

impl View for TestEvaluation {
    type V = EvaluationView;

    open spec fn view(&self) -> EvaluationView {
        EvaluationView {
            test_name: self.test_name@,
            result: self.result,
            assertion_results: self.assertion_results@.map_values(|a: AssertionResult| a@),
        }
    }
}

/// The abstract values of a sequence of evaluations.
pub open spec fn evaluations_view(s: Seq<TestEvaluation>) -> Seq<EvaluationView> {
    s.map_values(|e: TestEvaluation| e@)
}

impl AssertionResult {
    /// A copy with the same content.
    pub fn duplicate(&self) -> (r: Self)
        ensures
            r@ == self@,
    {
        AssertionResult { description: self.description.clone(), result: self.result }
    }
}

impl TestEvaluation {
    /// A copy with the same content.
    pub fn duplicate(&self) -> (r: Self)
        ensures
            r@ == self@,
    {
        let mut v: Vec<AssertionResult> = Vec::new();
        let mut i: usize = 0;
        while i < self.assertion_results.len()
            invariant
                i <= self.assertion_results@.len(),
                v@.len() == i,
                forall|j: int| 0 <= j < i ==> #[trigger] v@[j]@ == self.assertion_results@[j]@,
            decreases self.assertion_results.len() - i,
        {
            v.push(self.assertion_results[i].duplicate());
            i = i + 1;
        }
        let r = TestEvaluation {
            test_name: self.test_name.clone(),
            result: self.result,
            assertion_results: v,
        };
        assert(r@.assertion_results =~= self@.assertion_results);
        r
    }
}

/// Copies a slice of evaluations.
pub fn duplicate_evaluations(s: &[TestEvaluation]) -> (r: Vec<TestEvaluation>)
    ensures
        evaluations_view(r@) == evaluations_view(s@),
{
    let mut v: Vec<TestEvaluation> = Vec::new();
    let mut i: usize = 0;
    while i < s.len()
        invariant
            i <= s@.len(),
            v@.len() == i,
            forall|j: int| 0 <= j < i ==> #[trigger] v@[j]@ == s@[j]@,
        decreases s.len() - i,
    {
        v.push(s[i].duplicate());
        i = i + 1;
    }
    assert(evaluations_view(v@) =~= evaluations_view(s@));
    v
}


/// Number of events of the given type.
pub open spec fn count_type(events: Seq<CanonicalEvent>, t: Seq<char>) -> nat
    decreases events.len(),
{
    if events.len() == 0 {
        0
    } else {
        count_type(events.drop_last(), t) + if events.last().event_type@ == t {
            1nat
        } else {
            0nat
        }
    }
}

/// A rate assertion counts exactly the events of its type: the count is the
/// length of the stream filtered to that type, it is zero exactly when no
/// event has the type, and events of other types never add to it.
pub proof fn law_count_type(events: Seq<CanonicalEvent>, t: Seq<char>, e: CanonicalEvent)
    ensures
        count_type(events, t) == events.filter(|x: CanonicalEvent| x.event_type@ == t).len(),
        count_type(events, t) <= events.len(),
        (count_type(events, t) == 0) <==> !has_type(events, t),
        e.event_type@ != t ==> count_type(events.push(e), t) == count_type(events, t),
        e.event_type@ == t ==> count_type(events.push(e), t) == count_type(events, t) + 1,
    decreases events.len(),
{
    reveal(Seq::filter);
    assert(events.push(e).drop_last() =~= events);
    if events.len() > 0 {
        law_count_type(events.drop_last(), t, e);
        let last = events.last();
        if has_type(events.drop_last(), t) {
            let i = choose|i: int|
                0 <= i < events.drop_last().len() && #[trigger] events.drop_last()[i].event_type@
                    == t;
            assert(events[i] == events.drop_last()[i]);
        }
        if has_type(events, t) && last.event_type@ != t {
            let i = choose|i: int| 0 <= i < events.len() && #[trigger] events[i].event_type@ == t;
            assert(i < events.len() - 1);
            assert(events.drop_last()[i] == events[i]);
        }
        if last.event_type@ == t {
            assert(events[events.len() - 1].event_type@ == t);
        }
    }
}

/// Some event has the given type.
pub open spec fn has_type(events: Seq<CanonicalEvent>, t: Seq<char>) -> bool {
    exists|i: int| 0 <= i < events.len() && #[trigger] events[i].event_type@ == t
}

/// Whether an event count `n` satisfies `n op t`.
///
/// For a real threshold `t` and an integer `n`: `n < t` iff `n < ceil(t)`,
/// `n <= t` iff `n <= floor(t)`, `n > t` iff `n > floor(t)` and `n >= t` iff
/// `n >= ceil(t)`; no comparison with a NaN holds.
pub open spec fn count_satisfies(n: nat, op: RateOperator, t: Threshold) -> bool {
    !t.nan && match op {
        RateOperator::LessThan => n < t.ceil,
        RateOperator::GreaterThan => n > t.floor,
        RateOperator::LessThanOrEqual => n <= t.floor,
        RateOperator::GreaterThanOrEqual => n >= t.ceil,
    }
}

/// Rate comparisons follow the real threshold. For a whole threshold `v`
/// (floor and ceiling both `v`) each operator compares the count with `v`;
/// for a threshold strictly between `f` and `f + 1` a count is below it
/// exactly when it is at most `f`, above it exactly when it is at least
/// `f + 1`; a NaN threshold is never met.
pub proof fn law_count_satisfies(n: nat, t: Threshold)
    ensures
        t.nan ==> !count_satisfies(n, RateOperator::LessThan, t) && !count_satisfies(
            n,
            RateOperator::GreaterThan,
            t,
        ) && !count_satisfies(n, RateOperator::LessThanOrEqual, t) && !count_satisfies(
            n,
            RateOperator::GreaterThanOrEqual,
            t,
        ),
        !t.nan && t.floor == t.ceil ==> {
            &&& count_satisfies(n, RateOperator::LessThan, t) == (n < t.floor)
            &&& count_satisfies(n, RateOperator::LessThanOrEqual, t) == (n <= t.floor)
            &&& count_satisfies(n, RateOperator::GreaterThan, t) == (n > t.floor)
            &&& count_satisfies(n, RateOperator::GreaterThanOrEqual, t) == (n >= t.floor)
        },
        !t.nan && t.ceil == t.floor + 1 ==> {
            &&& count_satisfies(n, RateOperator::LessThan, t) == (n <= t.floor)
            &&& count_satisfies(n, RateOperator::LessThanOrEqual, t) == (n <= t.floor)
            &&& count_satisfies(n, RateOperator::GreaterThan, t) == (n >= t.ceil)
            &&& count_satisfies(n, RateOperator::GreaterThanOrEqual, t) == (n >= t.ceil)
        },
{
}

/// How an operator prints (`{:?}`).
pub open spec fn operator_name(op: RateOperator) -> Seq<char> {
    match op {
        RateOperator::LessThan => "LessThan"@,
        RateOperator::GreaterThan => "GreaterThan"@,
        RateOperator::LessThanOrEqual => "LessThanOrEqual"@,
        RateOperator::GreaterThanOrEqual => "GreaterThanOrEqual"@,
    }
}

/// Pass when the condition holds, fail otherwise.
pub open spec fn pass_if(b: bool) -> TestResult {
    if b {
        TestResult::Pass
    } else {
        TestResult::Fail
    }
}

/// The outcome (description, result) of one assertion over an event stream.
/// The first kind of check present in the assertion decides it.
pub open spec fn assertion_outcome(a: TestAssertion, events: Seq<CanonicalEvent>) -> (
    Seq<char>,
    TestResult,
) {
    if a.event_present is Some {
        let t = a.event_present->Some_0.event_type@;
        ("event_present: "@ + t, pass_if(has_type(events, t)))
    } else if a.event_absent is Some {
        let t = a.event_absent->Some_0.event_type@;
        ("event_absent: "@ + t, pass_if(!has_type(events, t)))
    } else if a.rate is Some {
        let r = a.rate->Some_0;
        let t = r.event_type@;
        if r.threshold is Some && r.operator is Some {
            let th = r.threshold->Some_0;
            let op = r.operator->Some_0;
            (
                "rate: "@ + t + " "@ + operator_name(op) + " "@ + th.text@,
                pass_if(count_satisfies(count_type(events, t), op, th)),
            )
        } else {
            ("rate: "@ + t + " (no threshold)"@, TestResult::Unknown)
        }
    } else {
        ("empty assertion"@, TestResult::Unknown)
    }
}

/// A test's overall result from its assertion results: fail if any failed,
/// else unknown if any is unknown, else pass.
pub open spec fn combined_result(rs: Seq<(Seq<char>, TestResult)>) -> TestResult {
    if exists|i: int| 0 <= i < rs.len() && #[trigger] rs[i].1 == TestResult::Fail {
        TestResult::Fail
    } else if exists|i: int| 0 <= i < rs.len() && #[trigger] rs[i].1 == TestResult::Unknown {
        TestResult::Unknown
    } else {
        TestResult::Pass
    }
}

/// The assertion outcomes of a test, in order.
pub open spec fn test_outcomes(t: TestConfig, events: Seq<CanonicalEvent>) -> Seq<(Seq<char>, TestResult)> {
    t.assertions@.map_values(|a: TestAssertion| assertion_outcome(a, events))
}

/// The evaluation of one test.
pub open spec fn test_evaluation(t: TestConfig, events: Seq<CanonicalEvent>) -> EvaluationView {
    EvaluationView {
        test_name: t.name@,
        result: combined_result(test_outcomes(t, events)),
        assertion_results: test_outcomes(t, events),
    }
}

/// What a test's result means: it fails exactly when some assertion failed,
/// passes exactly when every assertion passed, and is unknown otherwise.
pub proof fn law_combined_result(rs: Seq<(Seq<char>, TestResult)>)
    ensures
        (combined_result(rs) == TestResult::Fail) <==> exists|i: int|
            0 <= i < rs.len() && (#[trigger] rs[i]).1 == TestResult::Fail,
        (combined_result(rs) == TestResult::Pass) <==> forall|i: int|
            0 <= i < rs.len() ==> (#[trigger] rs[i]).1 == TestResult::Pass,
{
    if !(forall|i: int| 0 <= i < rs.len() ==> (#[trigger] rs[i]).1 == TestResult::Pass) {
        let i = choose|i: int| 0 <= i < rs.len() && !((#[trigger] rs[i]).1 == TestResult::Pass);
        assert(rs[i].1 == TestResult::Fail || rs[i].1 == TestResult::Unknown);
    }
}

/// What an assertion checks: `event_present` passes exactly when some event
/// has its type, `event_absent` exactly when none has; a rate assertion with
/// threshold and operator compares the number of events of its type (see
/// `law_count_type`), and without them it is unknown.
pub proof fn law_assertion_outcome(a: TestAssertion, events: Seq<CanonicalEvent>)
    ensures
        a.event_present matches Some(p) ==> (assertion_outcome(a, events).1 == TestResult::Pass
            <==> exists|i: int|
            0 <= i < events.len() && (#[trigger] events[i]).event_type@ == p.event_type@),
        a.event_present matches Some(p) ==> assertion_outcome(a, events).1 != TestResult::Unknown,
        a.event_present is None && a.event_absent is Some ==> (assertion_outcome(a, events).1
            == TestResult::Pass <==> forall|i: int|
            0 <= i < events.len() ==> (#[trigger] events[i]).event_type@
                != a.event_absent->Some_0.event_type@),
        a.event_present is None && a.event_absent is None && a.rate is Some
            && a.rate->Some_0.threshold is Some && a.rate->Some_0.operator is Some
            ==> assertion_outcome(a, events).1 == pass_if(
            count_satisfies(
                count_type(events, a.rate->Some_0.event_type@),
                a.rate->Some_0.operator->Some_0,
                a.rate->Some_0.threshold->Some_0,
            ),
        ),
        a.event_present is None && a.event_absent is None && a.rate is Some && !(
        a.rate->Some_0.threshold is Some && a.rate->Some_0.operator is Some)
            ==> assertion_outcome(a, events).1 == TestResult::Unknown,
{
}

fn find_type(events: &[CanonicalEvent], t: &String) -> (found: bool)
    ensures
        found == has_type(events@, t@),
{
    let mut i: usize = 0;
    while i < events.len()
        invariant
            i <= events@.len(),
            forall|j: int| 0 <= j < i ==> events@[j].event_type@ != t@,
        decreases events.len() - i,
    {
        if events[i].event_type == *t {
            return true;
        }
        i = i + 1;
    }
    false
}

fn count_events(events: &[CanonicalEvent], t: &String) -> (n: usize)
    ensures
        n == count_type(events@, t@),
{
    let mut n: usize = 0;
    let mut i: usize = 0;
    while i < events.len()
        invariant
            i <= events@.len(),
            n == count_type(events@.take(i as int), t@),
            n <= i,
        decreases events.len() - i,
    {
        assert(events@.take(i + 1).drop_last() =~= events@.take(i as int));
        if events[i].event_type == *t {
            n = n + 1;
        }
        i = i + 1;
    }
    assert(events@.take(events@.len() as int) =~= events@);
    n
}

fn satisfies(n: usize, op: RateOperator, t: &Threshold) -> (b: bool)
    ensures
        b == count_satisfies(n as nat, op, *t),
{
    if t.nan {
        return false;
    }
    let c = n as i128;
    match op {
        RateOperator::LessThan => c < t.ceil,
        RateOperator::GreaterThan => c > t.floor,
        RateOperator::LessThanOrEqual => c <= t.floor,
        RateOperator::GreaterThanOrEqual => c >= t.ceil,
    }
}

fn operator_label(op: RateOperator) -> (s: &'static str)
    ensures
        s@ == operator_name(op),
{
    match op {
        RateOperator::LessThan => "LessThan",
        RateOperator::GreaterThan => "GreaterThan",
        RateOperator::LessThanOrEqual => "LessThanOrEqual",
        RateOperator::GreaterThanOrEqual => "GreaterThanOrEqual",
    }
}

fn result_of(b: bool) -> (r: TestResult)
    ensures
        r == pass_if(b),
{
    if b {
        TestResult::Pass
    } else {
        TestResult::Fail
    }
}

/// Evaluates a single assertion against the event stream.
fn evaluate_assertion(assertion: &TestAssertion, events: &[CanonicalEvent]) -> (r: AssertionResult)
    ensures
        r@ == assertion_outcome(*assertion, events@),
{
    if let Some(present) = &assertion.event_present {
        let found = find_type(events, &present.event_type);
        let mut d = String::from_str("event_present: ");
        d.append(present.event_type.as_str());
        return AssertionResult { description: d, result: result_of(found) };
    }
    if let Some(absent) = &assertion.event_absent {
        let found = find_type(events, &absent.event_type);
        let mut d = String::from_str("event_absent: ");
        d.append(absent.event_type.as_str());
        return AssertionResult { description: d, result: result_of(!found) };
    }
    if let Some(rate) = &assertion.rate {
        let count = count_events(events, &rate.event_type);
        if let (Some(threshold), Some(op)) = (&rate.threshold, &rate.operator) {
            let passes = satisfies(count, *op, threshold);
            let mut d = String::from_str("rate: ");
            d.append(rate.event_type.as_str());
            d.append(" ");
            d.append(operator_label(*op));
            d.append(" ");
            d.append(threshold.text.as_str());
            return AssertionResult { description: d, result: result_of(passes) };
        }
        let mut d = String::from_str("rate: ");
        d.append(rate.event_type.as_str());
        d.append(" (no threshold)");
        return AssertionResult { description: d, result: TestResult::Unknown };
    }
    AssertionResult { description: String::from_str("empty assertion"), result: TestResult::Unknown }
}

/// Evaluates a single test: all of its assertions, in order.
fn evaluate_test(test: &TestConfig, events: &[CanonicalEvent]) -> (e: TestEvaluation)
    ensures
        e@ == test_evaluation(*test, events@),
{
    let ghost outs = test_outcomes(*test, events@);
    let mut results: Vec<AssertionResult> = Vec::new();
    let mut any_fail = false;
    let mut any_unknown = false;
    let mut i: usize = 0;
    while i < test.assertions.len()
        invariant
            i <= test.assertions@.len(),
            outs == test_outcomes(*test, events@),
            outs.len() == test.assertions@.len(),
            results@.len() == i,
            forall|j: int| 0 <= j < i ==> #[trigger] results@[j]@ == outs[j],
            any_fail == exists|j: int| 0 <= j < i && #[trigger] outs[j].1 == TestResult::Fail,
            any_unknown == exists|j: int| 0 <= j < i && #[trigger] outs[j].1 == TestResult::Unknown,
        decreases test.assertions.len() - i,
    {
        let r = evaluate_assertion(&test.assertions[i], events);
        assert(r@ == outs[i as int]);
        assert(r.result == outs[i as int].1);
        match r.result {
            TestResult::Fail => {
                any_fail = true;
            },
            TestResult::Unknown => {
                any_unknown = true;
            },
            TestResult::Pass => {},
        }
        results.push(r);
        i = i + 1;
    }
    let result = if any_fail {
        TestResult::Fail
    } else if any_unknown {
        TestResult::Unknown
    } else {
        TestResult::Pass
    };
    let e = TestEvaluation { test_name: test.name.clone(), result, assertion_results: results };
    assert(e@.assertion_results =~= outs);
    e
}

/// Evaluates all tests against the event stream, in order.
pub fn evaluate_tests(tests: &[TestConfig], events: &[CanonicalEvent]) -> (r: Vec<TestEvaluation>)
    ensures
        r@.len() == tests@.len(),
        forall|i: int| 0 <= i < tests@.len() ==> #[trigger] r@[i]@ == test_evaluation(tests@[i], events@),
{
    let mut out: Vec<TestEvaluation> = Vec::new();
    let mut i: usize = 0;
    while i < tests.len()
        invariant
            i <= tests@.len(),
            out@.len() == i,
            forall|j: int| 0 <= j < i ==> #[trigger] out@[j]@ == test_evaluation(tests@[j], events@),
        decreases tests.len() - i,
    {
        out.push(evaluate_test(&tests[i], events));
        i = i + 1;
    }
    out
}

} // verus!
