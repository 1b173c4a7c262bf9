//! Keyboard input handling for the dashboard.

use vstd::prelude::*;

use super::state::{AppState, HumanAction};

verus! {

/// A key press, as the dashboard reads it.
#[derive(Clone, Copy, Debug, PartialEq, Eq, Structural)]
pub enum Key {
    Char(char),
    Esc,
    Other,
}

/// Result of processing a key press.
#[derive(Clone, Copy, Debug, PartialEq, Eq, Structural)]
pub enum InputResult {
    Continue,
    Quit,
    Action(HumanAction),
}

/// The action a key selects, if any.
pub open spec fn key_action(key: Key) -> Option<HumanAction> {
    match key {
        Key::Char('p') => Some(HumanAction::Promote),
        Key::Char('r') => Some(HumanAction::Rollback),
        Key::Char('h') => Some(HumanAction::Hold),
        _ => None,
    }
}

/// The key quits the dashboard.
pub open spec fn key_quits(key: Key) -> bool {
    key == Key::Char('q') || key == Key::Esc
}

/// Handles a key press: `q` or Esc quit; `p`, `r`, `h` select promote,
/// rollback or hold (replacing any earlier selection); other keys do nothing.
pub fn handle_key(key: Key, state: &mut AppState) -> (r: InputResult)
    ensures
        key_quits(key) ==> r == InputResult::Quit && final(state).selected_action == old(
            state,
        ).selected_action,
        key_action(key) matches Some(a) ==> r == InputResult::Action(a)
            && final(state).selected_action == Some(a),
        !key_quits(key) && key_action(key) is None ==> r == InputResult::Continue
            && final(state).selected_action == old(state).selected_action,
        final(state).deployment_id == old(state).deployment_id,
        final(state).recommendation == old(state).recommendation,
        final(state).total_cycles == old(state).total_cycles,
        final(state).consecutive_passes == old(state).consecutive_passes,
        final(state).test_results == old(state).test_results,
        final(state).reasoning == old(state).reasoning,
{
    match key {
        Key::Char('q') | Key::Esc => InputResult::Quit,
        Key::Char('p') => {
            state.selected_action = Some(HumanAction::Promote);
            InputResult::Action(HumanAction::Promote)
        },
        Key::Char('r') => {
            state.selected_action = Some(HumanAction::Rollback);
            InputResult::Action(HumanAction::Rollback)
        },
        Key::Char('h') => {
            state.selected_action = Some(HumanAction::Hold);
            InputResult::Action(HumanAction::Hold)
        },
        _ => InputResult::Continue,
    }
}

} // verus!
