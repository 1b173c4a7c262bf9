//! Command-line interface model and the exit-code contract.

use vstd::prelude::*;

verus! {

/// The command line: one subcommand.
#[derive(Clone, Debug)]
pub struct Cli {
    pub command: Command,
}

/// The subcommands.
#[derive(Clone, Debug)]
pub enum Command {
    /// Watch a canary deployment continuously, evaluating on each cycle.
    Watch {
        config: String,
        log: Option<String>,
        log_dir: Option<String>,
        match_pattern: Option<String>,
        tui: bool,
        api: bool,
        api_addr: String,
    },
    /// Run a single evaluation pass against a log file.
    Evaluate {
        config: String,
        log: Option<String>,
        log_dir: Option<String>,
        match_pattern: Option<String>,
        format: OutputFormat,
    },
    /// Validate a configuration file without running an evaluation.
    Validate { config: String },
    /// Explain the reasoning behind a past decision.
    Explain { decision_id: String, db: String },
    /// Query decision history from the audit trail.
    History {
        deployment_id: Option<String>,
        verdict: Option<String>,
        since: Option<String>,
        limit: usize,
        db: String,
    },
}

/// Output format of an evaluation.
#[derive(Clone, Copy, Debug, PartialEq, Eq, Structural)]
pub enum OutputFormat {
    Json,
    Table,
}

/// Exit code: deploy is healthy, proceed.
pub const PROMOTE: i32 = 0;

/// Exit code: insufficient signal, wait and re-evaluate.
pub const HOLD: i32 = 1;

/// Exit code: deploy is unhealthy, revert.
pub const ROLLBACK: i32 = 2;

/// Exit code: bad config, missing file or internal failure.
pub const ERROR: i32 = 3;

} // verus!
