//! Lifecycle state machine for stateless systems.
//!
//! Transitions: Active → Freezing → Hibernated → Restoring → Active.
use vstd::prelude::*;

verus! {

/// System lifecycle states.
#[derive(Debug, Clone, Copy, PartialEq, Eq, Hash, Structural)]
pub enum State {
    /// Running and accepting service invocations.
    Active,
    /// Snapshotting the blob, preparing to evict.
    Freezing,
    /// Evicted: only the blob exists on disk.
    Hibernated,
    /// Materializing from blob back to active.
    Restoring,
}

/// The transitions the lifecycle allows: the cycle Active → Freezing →
/// Hibernated → Restoring → Active, cancelling a freeze (Freezing → Active),
/// and staying Active.
pub open spec fn valid_transition(from: State, to: State) -> bool {
    match (from, to) {
        (State::Active, State::Freezing) => true,
        (State::Freezing, State::Hibernated) => true,
        (State::Freezing, State::Active) => true,
        (State::Hibernated, State::Restoring) => true,
        (State::Restoring, State::Active) => true,
        (State::Active, State::Active) => true,
        _ => false,
    }
}

/// The name of a state, as `Debug` writes it.
pub open spec fn state_name(s: State) -> Seq<char> {
    match s {
        State::Active => "Active"@,
        State::Freezing => "Freezing"@,
        State::Hibernated => "Hibernated"@,
        State::Restoring => "Restoring"@,
    }
}

/// The message of a refused transition.
pub open spec fn transition_error_text(from: State, to: State) -> Seq<char> {
    "invalid transition: "@ + state_name(from) + " → "@ + state_name(to)
}

fn name_of(s: State) -> (r: &'static str)
    ensures
        r@ == state_name(s),
{
    match s {
        State::Active => "Active",
        State::Freezing => "Freezing",
        State::Hibernated => "Hibernated",
        State::Restoring => "Restoring",
    }
}

/// Check if a lifecycle transition is valid; a refused one is answered with
/// a message that names both states.
pub fn check_transition(from: State, to: State) -> (r: Result<(), String>)
    ensures
        r is Ok <==> valid_transition(from, to),
        r matches Err(m) ==> m@ == transition_error_text(from, to),
{
    match (from, to) {
        (State::Active, State::Freezing) => Ok(()),
        (State::Freezing, State::Hibernated) => Ok(()),
        (State::Freezing, State::Active) => Ok(()),
        (State::Hibernated, State::Restoring) => Ok(()),
        (State::Restoring, State::Active) => Ok(()),
        (State::Active, State::Active) => Ok(()),
        (from, to) => {
            let mut m = String::from_str("invalid transition: ");
            m.append(name_of(from));
            m.append(" → ");
            m.append(name_of(to));
            Err(m)
        },
    }
}

/// Law: a hibernated system leaves hibernation only by restoring, and
/// becomes active only from freezing (a cancel), restoring, or active.
pub proof fn law_hibernation_exits_through_restoring(s: State)
    ensures
        valid_transition(State::Hibernated, s) ==> s == State::Restoring,
        valid_transition(s, State::Active) ==> s == State::Freezing || s == State::Restoring || s
            == State::Active,
        valid_transition(s, State::Hibernated) ==> s == State::Freezing,
{
}

/// Law: a system enters restoration only from hibernation, enters a freeze
/// only from being active, and a freeze or restoration never goes back.
pub proof fn law_restoring_only_from_hibernated(s: State)
    ensures
        valid_transition(s, State::Restoring) ==> s == State::Hibernated,
        valid_transition(s, State::Freezing) ==> s == State::Active,
        valid_transition(State::Restoring, s) ==> s == State::Active,
        valid_transition(State::Active, s) ==> s == State::Freezing || s == State::Active,
        !valid_transition(s, s) || s == State::Active,
{
}

/// Law: the allowed transitions are exactly six: the four steps of the
/// cycle, cancelling a freeze, and staying active; every other pair of
/// states is refused.
pub proof fn law_exactly_six_transitions(a: State, b: State)
    ensures
        valid_transition(a, b) <==> {
            ||| a == State::Active && b == State::Freezing
            ||| a == State::Freezing && b == State::Hibernated
            ||| a == State::Hibernated && b == State::Restoring
            ||| a == State::Restoring && b == State::Active
            ||| a == State::Freezing && b == State::Active
            ||| a == State::Active && b == State::Active
        },
{
}

/// Law: the full cycle Active → Freezing → Hibernated → Restoring → Active
/// is made of allowed steps.
pub proof fn law_full_cycle_allowed()
    ensures
        valid_transition(State::Active, State::Freezing),
        valid_transition(State::Freezing, State::Hibernated),
        valid_transition(State::Hibernated, State::Restoring),
        valid_transition(State::Restoring, State::Active),
{
}

} // verus!
