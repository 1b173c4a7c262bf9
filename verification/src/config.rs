//! Configuration model: log stream bounds, classification rules, behavioral
//! tests, recommendation thresholds and metric sources.

use vstd::prelude::*;
use vstd::string::*;

use crate::classification::{regex_compiles, regex_is_valid};
use crate::error::Error;

verus! {

/// Where in the log stream to begin reading.
#[derive(Clone, Copy, Debug, PartialEq, Eq, Structural)]
pub enum StartMode {
    Beginning,
    Now,
    SinceTimestamp,
}

/// Log stream boundary configuration.
#[derive(Clone, Debug)]
pub struct LogstreamConfig {
    pub start: StartMode,
    pub lookback: String,
}

/// Evaluation cycle parameters.
#[derive(Clone, Debug)]
pub struct EvaluationConfig {
    pub interval: String,
    pub lookback: String,
    pub min_cycles: u32,
    pub max_duration: String,
}

/// Log format for parsing.
#[derive(Clone, Copy, Debug, PartialEq, Eq, Structural)]
pub enum LogFormat {
    Auto,
    Plaintext,
    Json,
}

/// Logging configuration including event classification rules.
#[derive(Clone, Debug)]
pub struct LoggingConfig {
    pub format: LogFormat,
    pub events: Vec<EventConfig>,
}

/// Severity level for classified events.
#[derive(Clone, Copy, Debug, PartialEq, Eq, Structural)]
pub enum EventLevel {
    Debug,
    Info,
    Warn,
    Error,
    Fatal,
}

/// Event classification rule.
#[derive(Clone, Debug)]
pub struct EventConfig {
    pub event_type: String,
    pub level: EventLevel,
    pub match_rule: MatchRule,
}

/// Match combinators for event classification.
#[derive(Clone, Debug)]
pub struct MatchRule {
    pub any: Vec<MatchCondition>,
    pub all: Vec<MatchCondition>,
    pub none: Vec<MatchCondition>,
}

/// A single match condition.
#[derive(Clone, Debug)]
pub struct MatchCondition {
    pub contains: Option<String>,
    pub regex: Option<String>,
}

/// A behavior-driven test definition.
#[derive(Clone, Debug)]
pub struct TestConfig {
    pub name: String,
    pub severity: FailSeverity,
    pub assertions: Vec<TestAssertion>,
}

/// How a test failure affects the recommendation.
#[derive(Clone, Copy, Debug, PartialEq, Eq, Structural)]
pub enum FailSeverity {
    Hard,
    Soft,
}

/// A test assertion (what to check in the event stream).
#[derive(Clone, Debug)]
pub struct TestAssertion {
    pub event_present: Option<EventPresentAssertion>,
    pub event_absent: Option<EventAbsentAssertion>,
    pub rate: Option<RateAssertion>,
}

#[derive(Clone, Debug)]
pub struct EventPresentAssertion {
    pub event_type: String,
    pub within: Option<String>,
}

#[derive(Clone, Debug)]
pub struct EventAbsentAssertion {
    pub event_type: String,
}

/// A numeric threshold as event counts are compared with it.
///
/// For a real threshold `t`, `floor` and `ceil` are its floor and ceiling
/// (saturated to the `i128` range), `nan` says that `t` is not a number (every
/// comparison with it is false), and `text` is how `t` prints.
#[derive(Clone, Debug)]
pub struct Threshold {
    pub floor: i128,
    pub ceil: i128,
    pub nan: bool,
    pub text: String,
}

#[derive(Clone, Debug)]
pub struct RateAssertion {
    pub event_type: String,
    pub threshold: Option<Threshold>,
    pub operator: Option<RateOperator>,
}

#[derive(Clone, Copy, Debug, PartialEq, Eq, Structural)]
pub enum RateOperator {
    LessThan,
    GreaterThan,
    LessThanOrEqual,
    GreaterThanOrEqual,
}

/// Override settings for pack tests.
#[derive(Clone, Debug)]
pub struct OverrideConfig {
    pub threshold: Option<Threshold>,
    pub within: Option<String>,
    pub severity: Option<FailSeverity>,
}

/// Recommendation engine configuration.
#[derive(Clone, Copy, Debug)]
pub struct RecommendationConfig {
    pub promote: PromoteConfig,
    pub rollback: RollbackConfig,
    pub bias: VerdictBias,
}

#[derive(Clone, Copy, Debug)]
pub struct PromoteConfig {
    pub require_min_cycles: u32,
    pub require_consecutive_passes: u32,
}

#[derive(Clone, Copy, Debug)]
pub struct RollbackConfig {
    pub soft_fail_consecutive_cycles: u32,
}

/// Verdict bias for ambiguous situations.
#[derive(Clone, Copy, Debug, PartialEq, Eq, Structural)]
pub enum VerdictBias {
    HoldOnAmbiguity,
    PromoteOnAmbiguity,
}

/// External metrics source configuration (e.g., Prometheus).
#[derive(Clone, Debug)]
pub struct MetricsSourceConfig {
    pub source_type: MetricsSourceType,
    pub endpoint: String,
    pub queries: Vec<MetricsQuery>,
}

#[derive(Clone, Copy, Debug, PartialEq, Eq, Structural)]
pub enum MetricsSourceType {
    Prometheus,
}

/// A metrics query as the decision logic reads it: the numeric threshold it
/// is compared against is held by the caller that performs the comparison.
#[derive(Clone, Debug)]
pub struct MetricsQuery {
    pub name: String,
    pub query: String,
    pub operator: Option<RateOperator>,
    pub severity: FailSeverity,
}

/// Direction in which a metric change is considered a regression.
#[derive(Clone, Copy, Debug, PartialEq, Eq, Structural)]
pub enum MetricDirection {
    IncreaseBad,
    DecreaseBad,
    Either,
}

/// A baseline-versus-canary comparison, as the decision logic reads it.
#[derive(Clone, Debug)]
pub struct StatisticalComparison {
    pub name: String,
    pub baseline_query: String,
    pub canary_query: String,
    pub direction: MetricDirection,
    pub severity: FailSeverity,
}

/// Statistical analysis settings.
#[derive(Clone, Debug)]
pub struct AnalysisConfig {
    pub comparisons: Vec<StatisticalComparison>,
}

/// Top-level configuration.
#[derive(Clone, Debug)]
pub struct Config {
    pub logstream: LogstreamConfig,
    pub evaluation: EvaluationConfig,
    pub logging: LoggingConfig,
    pub tests: Vec<TestConfig>,
    pub packs: Vec<String>,
    pub overrides: Vec<(String, OverrideConfig)>,
    pub recommendation: RecommendationConfig,
    pub metrics: Option<MetricsSourceConfig>,
    pub analysis: Option<AnalysisConfig>,
}

pub fn default_start_mode() -> (m: StartMode)
    ensures
        m == StartMode::Beginning,
{
    StartMode::Beginning
}

pub fn default_lookback() -> (s: String)
    ensures
        s@ == "60s"@,
{
    String::from_str("60s")
}

pub fn default_interval() -> (s: String)
    ensures
        s@ == "30s"@,
{
    String::from_str("30s")
}

pub fn default_min_cycles() -> (n: u32)
    ensures
        n == 5,
{
    5
}

pub fn default_max_duration() -> (s: String)
    ensures
        s@ == "15m"@,
{
    String::from_str("15m")
}

pub fn default_log_format() -> (f: LogFormat)
    ensures
        f == LogFormat::Auto,
{
    LogFormat::Auto
}

pub fn default_fail_severity() -> (s: FailSeverity)
    ensures
        s == FailSeverity::Hard,
{
    FailSeverity::Hard
}

pub fn default_consecutive_passes() -> (n: u32)
    ensures
        n == 2,
{
    2
}

pub fn default_soft_fail_consecutive() -> (n: u32)
    ensures
        n == 3,
{
    3
}

pub fn default_verdict_bias() -> (b: VerdictBias)
    ensures
        b == VerdictBias::HoldOnAmbiguity,
{
    VerdictBias::HoldOnAmbiguity
}

impl Default for LogstreamConfig {
    fn default() -> (c: Self)
        ensures
            c.start == StartMode::Beginning,
            c.lookback@ == "60s"@,
    {
        LogstreamConfig { start: default_start_mode(), lookback: default_lookback() }
    }
}

impl Default for EvaluationConfig {
    fn default() -> (c: Self)
        ensures
            c.interval@ == "30s"@,
            c.lookback@ == "60s"@,
            c.min_cycles == 5,
            c.max_duration@ == "15m"@,
    {
        EvaluationConfig {
            interval: default_interval(),
            lookback: default_lookback(),
            min_cycles: default_min_cycles(),
            max_duration: default_max_duration(),
        }
    }
}

impl Default for LoggingConfig {
    fn default() -> (c: Self)
        ensures
            c.format == LogFormat::Auto,
            c.events@.len() == 0,
    {
        LoggingConfig { format: default_log_format(), events: Vec::new() }
    }
}

impl Default for PromoteConfig {
    fn default() -> (c: Self)
        ensures
            c.require_min_cycles == 5,
            c.require_consecutive_passes == 2,
    {
        PromoteConfig {
            require_min_cycles: default_min_cycles(),
            require_consecutive_passes: default_consecutive_passes(),
        }
    }
}

impl Default for RollbackConfig {
    fn default() -> (c: Self)
        ensures
            c.soft_fail_consecutive_cycles == 3,
    {
        RollbackConfig { soft_fail_consecutive_cycles: default_soft_fail_consecutive() }
    }
}

impl Default for RecommendationConfig {
    fn default() -> (c: Self)
        ensures
            c.promote.require_min_cycles == 5,
            c.promote.require_consecutive_passes == 2,
            c.rollback.soft_fail_consecutive_cycles == 3,
            c.bias == VerdictBias::HoldOnAmbiguity,
    {
        RecommendationConfig {
            promote: PromoteConfig::default(),
            rollback: RollbackConfig::default(),
            bias: default_verdict_bias(),
        }
    }
}

/// The configuration defines nothing to check: no test, pack, metrics query
/// or statistical comparison.
pub open spec fn nothing_to_check(c: Config) -> bool {
    &&& c.tests@.len() == 0
    &&& c.packs@.len() == 0
    &&& (c.metrics is None || c.metrics->Some_0.queries@.len() == 0)
    &&& (c.analysis is None || c.analysis->Some_0.comparisons@.len() == 0)
}

/// The first regex among the conditions (from index `k`) that does not compile.
pub open spec fn first_bad_regex(conds: Seq<MatchCondition>, k: int) -> Option<Seq<char>>
    decreases conds.len() - k,
{
    if k < 0 || k >= conds.len() {
        None
    } else if conds[k].regex is Some && !regex_compiles(conds[k].regex->Some_0@) {
        Some(conds[k].regex->Some_0@)
    } else {
        first_bad_regex(conds, k + 1)
    }
}

/// What is wrong with an event rule, if anything: it has no condition, or one
/// of its regexes (in `any`, `all`, `none` order) does not compile.
pub open spec fn event_problem(e: EventConfig) -> Option<Seq<char>> {
    let r = e.match_rule;
    if r.any@.len() == 0 && r.all@.len() == 0 && r.none@.len() == 0 {
        Some(
            "event '"@ + e.event_type@ + "' must have at least one match rule (any, all, or none)"@,
        )
    } else {
        let bad = match first_bad_regex(r.any@, 0) {
            Some(p) => Some(p),
            None => match first_bad_regex(r.all@, 0) {
                Some(p) => Some(p),
                None => first_bad_regex(r.none@, 0),
            },
        };
        match bad {
            Some(p) => Some("event '"@ + e.event_type@ + "' has invalid regex '"@ + p + "'"@),
            None => None,
        }
    }
}

/// The first problem among event rules from index `k`.
pub open spec fn first_event_problem(es: Seq<EventConfig>, k: int) -> Option<Seq<char>>
    decreases es.len() - k,
{
    if k < 0 || k >= es.len() {
        None
    } else if event_problem(es[k]) is Some {
        event_problem(es[k])
    } else {
        first_event_problem(es, k + 1)
    }
}

/// An assertion that checks nothing.
pub open spec fn assertion_empty(a: TestAssertion) -> bool {
    a.event_present is None && a.event_absent is None && a.rate is None
}

/// What is wrong with a test, if anything.
pub open spec fn test_problem(t: TestConfig) -> Option<Seq<char>> {
    if t.assertions@.len() == 0 {
        Some("test '"@ + t.name@ + "' must have at least one assertion in 'then'"@)
    } else if exists|i: int| 0 <= i < t.assertions@.len() && assertion_empty(#[trigger] t.assertions@[i]) {
        Some(
            "test '"@ + t.name@
                + "' has an empty assertion (must specify event_present, event_absent, or rate)"@,
        )
    } else {
        None
    }
}

/// The first problem among tests from index `k`.
pub open spec fn first_test_problem(ts: Seq<TestConfig>, k: int) -> Option<Seq<char>>
    decreases ts.len() - k,
{
    if k < 0 || k >= ts.len() {
        None
    } else if test_problem(ts[k]) is Some {
        test_problem(ts[k])
    } else {
        first_test_problem(ts, k + 1)
    }
}

/// The first problem of a configuration, checked in this order: nothing to
/// check, event rules, tests, promotion thresholds.
pub open spec fn config_problem(c: Config) -> Option<Seq<char>> {
    if nothing_to_check(c) {
        Some("configuration must define at least one test, pack, metrics query, or comparison"@)
    } else if first_event_problem(c.logging.events@, 0) is Some {
        first_event_problem(c.logging.events@, 0)
    } else if first_test_problem(c.tests@, 0) is Some {
        first_test_problem(c.tests@, 0)
    } else if c.recommendation.promote.require_min_cycles == 0 {
        Some("require_min_cycles must be at least 1"@)
    } else if c.recommendation.promote.require_consecutive_passes == 0 {
        Some("require_consecutive_passes must be at least 1"@)
    } else {
        None
    }
}

/// The first bad regex is found exactly when some regex from `k` on does
/// not compile, and it is the first such one.
pub proof fn law_first_bad_regex(conds: Seq<MatchCondition>, k: int)
    requires
        0 <= k,
    ensures
        first_bad_regex(conds, k) is None <==> forall|i: int|
            k <= i < conds.len() ==> !((#[trigger] conds[i]).regex is Some && !regex_compiles(
                conds[i].regex->Some_0@,
            )),
        first_bad_regex(conds, k) matches Some(p) ==> exists|i: int|
            k <= i < conds.len() && (#[trigger] conds[i]).regex is Some && conds[i].regex->Some_0@ == p && !regex_compiles(p) && forall|j: int|
                k <= j < i ==> !((#[trigger] conds[j]).regex is Some && !regex_compiles(
                    conds[j].regex->Some_0@,
                )),
    decreases conds.len() - k,
{
    if k < conds.len() {
        law_first_bad_regex(conds, k + 1);
    }
}

/// The first event problem is found exactly when some event rule from `k`
/// on has a problem, and it is that of the first such rule.
pub proof fn law_first_event_problem(es: Seq<EventConfig>, k: int)
    requires
        0 <= k,
    ensures
        first_event_problem(es, k) is None <==> forall|i: int|
            k <= i < es.len() ==> event_problem(#[trigger] es[i]) is None,
        first_event_problem(es, k) matches Some(m) ==> exists|i: int|
            k <= i < es.len() && event_problem(#[trigger] es[i]) == Some(m) && forall|j: int|
                k <= j < i ==> event_problem(#[trigger] es[j]) is None,
    decreases es.len() - k,
{
    if k < es.len() {
        law_first_event_problem(es, k + 1);
    }
}

/// The first test problem is found exactly when some test from `k` on has a
/// problem, and it is that of the first such test.
pub proof fn law_first_test_problem(ts: Seq<TestConfig>, k: int)
    requires
        0 <= k,
    ensures
        first_test_problem(ts, k) is None <==> forall|i: int|
            k <= i < ts.len() ==> test_problem(#[trigger] ts[i]) is None,
        first_test_problem(ts, k) matches Some(m) ==> exists|i: int|
            k <= i < ts.len() && test_problem(#[trigger] ts[i]) == Some(m) && forall|j: int|
                k <= j < i ==> test_problem(#[trigger] ts[j]) is None,
    decreases ts.len() - k,
{
    if k < ts.len() {
        law_first_test_problem(ts, k + 1);
    }
}

/// What validation accepts: a configuration is valid exactly when it checks
/// something, every event rule has a condition and only regexes that
/// compile, every test has assertions and none of them is empty, and both
/// promotion thresholds are at least one.
pub proof fn law_valid_config(c: Config)
    ensures
        config_problem(c) is None <==> {
            &&& (c.tests@.len() > 0 || c.packs@.len() > 0 || (c.metrics is Some
                && c.metrics->Some_0.queries@.len() > 0) || (c.analysis is Some
                && c.analysis->Some_0.comparisons@.len() > 0))
            &&& forall|i: int|
                0 <= i < c.logging.events@.len() ==> {
                    let r = (#[trigger] c.logging.events@[i]).match_rule;
                    &&& (r.any@.len() > 0 || r.all@.len() > 0 || r.none@.len() > 0)
                    &&& forall|j: int|
                        0 <= j < r.any@.len() && (#[trigger] r.any@[j]).regex is Some
                            ==> regex_compiles(r.any@[j].regex->Some_0@)
                    &&& forall|j: int|
                        0 <= j < r.all@.len() && (#[trigger] r.all@[j]).regex is Some
                            ==> regex_compiles(r.all@[j].regex->Some_0@)
                    &&& forall|j: int|
                        0 <= j < r.none@.len() && (#[trigger] r.none@[j]).regex is Some
                            ==> regex_compiles(r.none@[j].regex->Some_0@)
                }
            &&& forall|i: int|
                0 <= i < c.tests@.len() ==> {
                    let t = #[trigger] c.tests@[i];
                    &&& t.assertions@.len() > 0
                    &&& forall|j: int|
                        0 <= j < t.assertions@.len() ==> {
                            let a = #[trigger] t.assertions@[j];
                            a.event_present is Some || a.event_absent is Some || a.rate is Some
                        }
                }
            &&& c.recommendation.promote.require_min_cycles >= 1
            &&& c.recommendation.promote.require_consecutive_passes >= 1
        },
{
    law_first_event_problem(c.logging.events@, 0);
    law_first_test_problem(c.tests@, 0);
    assert forall|i: int| 0 <= i < c.logging.events@.len() implies (event_problem(
        #[trigger] c.logging.events@[i],
    ) is None <==> {
        let r = c.logging.events@[i].match_rule;
        &&& (r.any@.len() > 0 || r.all@.len() > 0 || r.none@.len() > 0)
        &&& forall|j: int|
            0 <= j < r.any@.len() && (#[trigger] r.any@[j]).regex is Some ==> regex_compiles(
                r.any@[j].regex->Some_0@,
            )
        &&& forall|j: int|
            0 <= j < r.all@.len() && (#[trigger] r.all@[j]).regex is Some ==> regex_compiles(
                r.all@[j].regex->Some_0@,
            )
        &&& forall|j: int|
            0 <= j < r.none@.len() && (#[trigger] r.none@[j]).regex is Some ==> regex_compiles(
                r.none@[j].regex->Some_0@,
            )
    }) by {
        let r = c.logging.events@[i].match_rule;
        law_first_bad_regex(r.any@, 0);
        law_first_bad_regex(r.all@, 0);
        law_first_bad_regex(r.none@, 0);
    }
}

fn find_bad_regex(conds: &Vec<MatchCondition>) -> (r: Option<&String>)
    ensures
        match r {
            Some(p) => first_bad_regex(conds@, 0) == Some(p@),
            None => first_bad_regex(conds@, 0) is None,
        },
{
    let mut i: usize = 0;
    while i < conds.len()
        invariant
            i <= conds@.len(),
            first_bad_regex(conds@, 0) == first_bad_regex(conds@, i as int),
        decreases conds.len() - i,
    {
        if let Some(p) = &conds[i].regex {
            if !regex_is_valid(p.as_str()) {
                return Some(p);
            }
        }
        i = i + 1;
    }
    None
}

fn check_event(e: &EventConfig) -> (r: Option<String>)
    ensures
        match r {
            Some(m) => event_problem(*e) == Some(m@),
            None => event_problem(*e) is None,
        },
{
    let r = &e.match_rule;
    if r.any.len() == 0 && r.all.len() == 0 && r.none.len() == 0 {
        let mut m = String::from_str("event '");
        m.append(e.event_type.as_str());
        m.append("' must have at least one match rule (any, all, or none)");
        return Some(m);
    }
    let bad = match find_bad_regex(&r.any) {
        Some(p) => Some(p),
        None => match find_bad_regex(&r.all) {
            Some(p) => Some(p),
            None => find_bad_regex(&r.none),
        },
    };
    match bad {
        Some(p) => {
            let mut m = String::from_str("event '");
            m.append(e.event_type.as_str());
            m.append("' has invalid regex '");
            m.append(p.as_str());
            m.append("'");
            Some(m)
        },
        None => None,
    }
}

fn check_test(t: &TestConfig) -> (r: Option<String>)
    ensures
        match r {
            Some(m) => test_problem(*t) == Some(m@),
            None => test_problem(*t) is None,
        },
{
    if t.assertions.len() == 0 {
        let mut m = String::from_str("test '");
        m.append(t.name.as_str());
        m.append("' must have at least one assertion in 'then'");
        return Some(m);
    }
    let mut i: usize = 0;
    while i < t.assertions.len()
        invariant
            i <= t.assertions@.len(),
            forall|j: int| 0 <= j < i ==> !assertion_empty(#[trigger] t.assertions@[j]),
        decreases t.assertions.len() - i,
    {
        let a = &t.assertions[i];
        if a.event_present.is_none() && a.event_absent.is_none() && a.rate.is_none() {
            assert(assertion_empty(t.assertions@[i as int]));
            let mut m = String::from_str("test '");
            m.append(t.name.as_str());
            m.append("' has an empty assertion (must specify event_present, event_absent, or rate)");
            return Some(m);
        }
        i = i + 1;
    }
    None
}

/// Validates a configuration for logical consistency; the error names the
/// first problem found (see `config_problem`).
pub fn validate_config(config: &Config) -> (r: Result<(), Error>)
    ensures
        match r {
            Ok(()) => config_problem(*config) is None,
            Err(Error::Config(m)) => config_problem(*config) == Some(m@),
            Err(_) => false,
        },
{
    let no_queries = match &config.metrics {
        Some(m) => m.queries.len() == 0,
        None => true,
    };
    let no_comparisons = match &config.analysis {
        Some(a) => a.comparisons.len() == 0,
        None => true,
    };
    if config.tests.len() == 0 && config.packs.len() == 0 && no_queries && no_comparisons {
        return Err(
            Error::Config(
                String::from_str(
                    "configuration must define at least one test, pack, metrics query, or comparison",
                ),
            ),
        );
    }
    let mut i: usize = 0;
    while i < config.logging.events.len()
        invariant
            i <= config.logging.events@.len(),
            !nothing_to_check(*config),
            first_event_problem(config.logging.events@, 0) == first_event_problem(
                config.logging.events@,
                i as int,
            ),
        decreases config.logging.events.len() - i,
    {
        match check_event(&config.logging.events[i]) {
            Some(m) => {
                return Err(Error::Config(m));
            },
            None => {},
        }
        i = i + 1;
    }
    let mut j: usize = 0;
    while j < config.tests.len()
        invariant
            j <= config.tests@.len(),
            !nothing_to_check(*config),
            first_event_problem(config.logging.events@, 0) is None,
            first_test_problem(config.tests@, 0) == first_test_problem(config.tests@, j as int),
        decreases config.tests.len() - j,
    {
        match check_test(&config.tests[j]) {
            Some(m) => {
                return Err(Error::Config(m));
            },
            None => {},
        }
        j = j + 1;
    }
    if config.recommendation.promote.require_min_cycles == 0 {
        return Err(Error::Config(String::from_str("require_min_cycles must be at least 1")));
    }
    if config.recommendation.promote.require_consecutive_passes == 0 {
        return Err(Error::Config(String::from_str("require_consecutive_passes must be at least 1")));
    }
    Ok(())
}

} // verus!
