//! The `CanaryGate` custom resource: spec, status and phases.

use vstd::prelude::*;
use vstd::string::*;

use crate::config::{
    Config, EvaluationConfig, FailSeverity, LogFormat, LoggingConfig, LogstreamConfig,
    MetricsSourceConfig, RecommendationConfig, StartMode, TestConfig,
};

verus! {

/// Reference to the target workload being evaluated.
#[derive(Clone, Debug)]
pub struct TargetRef {
    pub api_version: String,
    pub kind: String,
    pub name: String,
}

/// The spec of a `CanaryGate` resource.
#[derive(Clone, Debug)]
pub struct CanaryGateSpec {
    pub target_ref: TargetRef,
    pub pod_selector: Option<String>,
    pub evaluation: Option<EvaluationConfig>,
    pub logging: Option<LoggingConfig>,
    pub tests: Vec<TestConfig>,
    pub packs: Vec<String>,
    pub recommendation: Option<RecommendationConfig>,
    pub metrics: Option<MetricsSourceConfig>,
}

/// The recommendation settings when none are given.
pub open spec fn default_recommendation() -> RecommendationConfig {
    RecommendationConfig {
        promote: crate::config::PromoteConfig { require_min_cycles: 5, require_consecutive_passes: 2 },
        rollback: crate::config::RollbackConfig { soft_fail_consecutive_cycles: 3 },
        bias: crate::config::VerdictBias::HoldOnAmbiguity,
    }
}

/// `e` holds the default evaluation settings.
pub open spec fn is_default_evaluation(e: EvaluationConfig) -> bool {
    &&& e.interval@ == "30s"@
    &&& e.lookback@ == "60s"@
    &&& e.min_cycles == 5
    &&& e.max_duration@ == "15m"@
}

/// `c` is the configuration that a resource's spec stands for: the spec's
/// tests, packs and metrics, its evaluation, logging and recommendation
/// settings or the defaults where it gives none, the default log stream, no
/// overrides and no statistical analysis.
pub open spec fn config_of_spec(spec: CanaryGateSpec, c: Config) -> bool {
    &&& c.logstream.start == StartMode::Beginning
    &&& c.logstream.lookback@ == "60s"@
    &&& match spec.evaluation {
        Some(e) => c.evaluation == e,
        None => is_default_evaluation(c.evaluation),
    }
    &&& match spec.logging {
        Some(l) => c.logging == l,
        None => c.logging.format == LogFormat::Auto && c.logging.events@.len() == 0,
    }
    &&& c.tests == spec.tests
    &&& c.packs == spec.packs
    &&& c.overrides@.len() == 0
    &&& c.recommendation == match spec.recommendation {
        Some(r) => r,
        None => default_recommendation(),
    }
    &&& c.metrics == spec.metrics
    &&& c.analysis is None
}

impl vstd::std_specs::convert::FromSpecImpl<CanaryGateSpec> for Config {
    /// The configuration is stated by `config_of_spec`, not as one value:
    /// default texts are fixed by their characters only.
    open spec fn obeys_from_spec() -> bool {
        false
    }

    open spec fn from_spec(v: CanaryGateSpec) -> Config {
        choose|c: Config| config_of_spec(v, c)
    }
}

impl From<CanaryGateSpec> for Config {
    /// The configuration that the resource's spec stands for.
    fn from(spec: CanaryGateSpec) -> (c: Config)
        ensures
            config_of_spec(spec, c),
    {
        let evaluation = match spec.evaluation {
            Some(e) => e,
            None => EvaluationConfig::default(),
        };
        let logging = match spec.logging {
            Some(l) => l,
            None => LoggingConfig::default(),
        };
        let recommendation = match spec.recommendation {
            Some(r) => r,
            None => RecommendationConfig::default(),
        };
        Config {
            logstream: LogstreamConfig::default(),
            evaluation,
            logging,
            tests: spec.tests,
            packs: spec.packs,
            overrides: Vec::new(),
            recommendation,
            metrics: spec.metrics,
            analysis: None,
        }
    }
}

/// The phase of the evaluation lifecycle.
#[derive(Clone, Copy, Debug, PartialEq, Eq, Structural)]
pub enum CanaryGatePhase {
    Pending,
    Evaluating,
    Promote,
    Hold,
    Rollback,
}

/// How a phase is displayed.
pub open spec fn phase_text(p: CanaryGatePhase) -> Seq<char> {
    match p {
        CanaryGatePhase::Pending => "Pending"@,
        CanaryGatePhase::Evaluating => "Evaluating"@,
        CanaryGatePhase::Promote => "Promote"@,
        CanaryGatePhase::Hold => "Hold"@,
        CanaryGatePhase::Rollback => "Rollback"@,
    }
}

impl CanaryGatePhase {
    /// The phase's name.
    pub fn to_string(&self) -> (s: String)
        ensures
            s@ == phase_text(*self),
    {
        match self {
            CanaryGatePhase::Pending => String::from_str("Pending"),
            CanaryGatePhase::Evaluating => String::from_str("Evaluating"),
            CanaryGatePhase::Promote => String::from_str("Promote"),
            CanaryGatePhase::Hold => String::from_str("Hold"),
            CanaryGatePhase::Rollback => String::from_str("Rollback"),
        }
    }
}

/// Status of a `CanaryGate` resource.
#[derive(Clone, Debug)]
pub struct CanaryGateStatus {
    pub phase: CanaryGatePhase,
    pub recommendation: Option<String>,
    pub cycles: u32,
    pub consecutive_passes: u32,
    pub conditions: Vec<CanaryGateCondition>,
    pub reasoning: Vec<String>,
    /// The soft-fail streaks carried from one evaluation cycle to the next:
    /// each failing soft test's name and its run of failed cycles.
    pub soft_fail_streaks: Vec<(String, u32)>,
}

/// A condition on the resource.
#[derive(Clone, Debug)]
pub struct CanaryGateCondition {
    pub condition_type: String,
    pub status: String,
    pub message: String,
    pub last_transition_time: Option<String>,
}

/// The Unicode lower-case form of a text, as `str::to_lowercase` gives it.
pub uninterp spec fn lowercase(s: Seq<char>) -> Seq<char>;

/// Every character is ASCII.
pub open spec fn is_ascii_text(s: Seq<char>) -> bool {
    forall|i: int| 0 <= i < s.len() ==> (#[trigger] s[i] as u32) < 128
}

/// The ASCII lower-case form of a character: `A`..`Z` become `a`..`z`,
/// every other character stays.
pub open spec fn ascii_lower(c: char) -> char {
    let u = c as u32;
    if 65 <= u <= 90 {
        (u + 32) as char
    } else {
        c
    }
}

/// `str::to_lowercase`: its result is named `lowercase`; on ASCII text it
/// maps `A`..`Z` to `a`..`z` and keeps every other character (the Unicode
/// lower-case mapping of the ASCII range, as `to_ascii_lowercase` documents
/// it). What it does beyond ASCII is left to the name.
#[verifier::external_body]
fn to_lowercase(s: &str) -> (r: String)
    ensures
        r@ == lowercase(s@),
        is_ascii_text(s@) ==> r@ == s@.map_values(|c: char| ascii_lower(c)),
{
    s.to_lowercase()
}

/// Converts a severity name into a severity: soft when its lower-case form is
/// `soft`, hard otherwise. For an ASCII name that is `soft` in any mix of
/// upper and lower case.
pub fn parse_severity(s: &str) -> (r: FailSeverity)
    ensures
        r == if lowercase(s@) == "soft"@ {
            FailSeverity::Soft
        } else {
            FailSeverity::Hard
        },
        is_ascii_text(s@) ==> (r == FailSeverity::Soft <==> s@.map_values(|c: char| ascii_lower(c))
            == "soft"@),
{
    let lower = to_lowercase(s);
    let soft = String::from_str("soft");
    if lower == soft {
        FailSeverity::Soft
    } else {
        FailSeverity::Hard
    }
}

} // verus!
