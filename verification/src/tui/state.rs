//! The dashboard's application state.

use vstd::prelude::*;
use vstd::string::*;

use crate::behavior::TestEvaluation;
use crate::recommendation::Recommendation;

verus! {

/// The full dashboard state.
#[derive(Clone, Debug)]
pub struct AppState {
    pub deployment_id: String,
    pub recommendation: Recommendation,
    pub total_cycles: u32,
    pub consecutive_passes: u32,
    pub test_results: Vec<TestEvaluation>,
    pub reasoning: Vec<String>,
    pub selected_action: Option<HumanAction>,
}

/// A human override action taken through the dashboard.
#[derive(Clone, Copy, Debug, PartialEq, Eq, Structural)]
pub enum HumanAction {
    Promote,
    Rollback,
    Hold,
}

/// How an action is displayed.
pub open spec fn action_text(a: HumanAction) -> Seq<char> {
    match a {
        HumanAction::Promote => "promote"@,
        HumanAction::Rollback => "rollback"@,
        HumanAction::Hold => "hold"@,
    }
}

impl HumanAction {
    /// The action's name: `promote`, `rollback` or `hold`.
    pub fn to_string(&self) -> (s: String)
        ensures
            s@ == action_text(*self),
    {
        match self {
            HumanAction::Promote => String::from_str("promote"),
            HumanAction::Rollback => String::from_str("rollback"),
            HumanAction::Hold => String::from_str("hold"),
        }
    }
}

impl AppState {
    /// The initial state for a deployment: hold, no cycles, no results, no
    /// action selected.
    pub fn new(deployment_id: &str) -> (s: Self)
        ensures
            s.deployment_id@ == deployment_id@,
            s.recommendation == Recommendation::Hold,
            s.total_cycles == 0,
            s.consecutive_passes == 0,
            s.test_results@.len() == 0,
            s.reasoning@.len() == 0,
            s.selected_action is None,
    {
        AppState {
            deployment_id: String::from_str(deployment_id),
            recommendation: Recommendation::Hold,
            total_cycles: 0,
            consecutive_passes: 0,
            test_results: Vec::new(),
            reasoning: Vec::new(),
            selected_action: None,
        }
    }
}

} // verus!
