//! A minimal finite-state-machine definition and transition-lookup library.
//!
//! A caller declares a set of states and, for each state, a mapping from
//! recognized events to a target state, then queries "given current state X
//! and event E, what is the next state (if any)?" The table is assembled
//! bottom-up (`EventTransition` -> `StateEventHandler` -> `StateConfig`),
//! wrapped in a `Machine`, and never mutated afterwards: `transition` is a
//! pure function of the table and its two inputs.

use std::collections::HashMap;
use vstd::map::*;
use vstd::prelude::*;

verus! {

/// Identifier of an automaton state, supplied by the caller.
pub type StateId = u64;

/// Identifier of an input event, supplied by the caller.
pub type EventId = u64;

/// The destination state reached when a given event occurs in a given state.
/// Immutable once created; construction never fails.
pub struct EventTransition {
    pub target: StateId,
}

/// A transient current-state token, passed in and returned by
/// `Machine::transition`. It carries nothing but the state identifier: the
/// caller, not the machine, tracks the current state across calls.
#[derive(Debug)]
pub struct State {
    pub value: StateId,
}

/// Per-state mapping from events to transitions, accumulated with
/// `with_event` before the table is frozen.
pub struct StateEventHandler {
    on: HashMap<EventId, EventTransition>,
}

impl View for StateEventHandler {
    type V = Map<EventId, StateId>;

    /// The handler, seen as the mapping from each registered event to the
    /// target state of its transition.
    closed spec fn view(&self) -> Map<EventId, StateId> {
        self.on@.map_values(|t: EventTransition| t.target)
    }
}

impl StateEventHandler {
    /// An empty handler: no registered events.
    pub fn new() -> (r: Self)
        ensures
            r@ == Map::<EventId, StateId>::empty(),
    {
        let r = StateEventHandler { on: HashMap::new() };
        proof {
            assert_maps_equal!(r@, Map::<EventId, StateId>::empty());
        }
        r
    }

    /// Registers (or overwrites) the transition for `event`; returns the
    /// updated handler for fluent chaining. Registering the same event twice
    /// silently replaces the prior transition: last write wins.
    pub fn with_event(self, event: EventId, transition: EventTransition) -> (r: Self)
        ensures
            r@ == self@.insert(event, transition.target),
    {
        let target = transition.target;
        let mut on = self.on;
        on.insert(event, transition);
        let r = StateEventHandler { on };
        proof {
            assert_maps_equal!(r@, self@.insert(event, target));
        }
        r
    }
}

/// The complete transition table: a mapping from each declared state to its
/// event handler. Accumulated with `with_state`, then frozen by constructing
/// a `Machine` from it.
pub struct StateConfig {
    states: HashMap<StateId, StateEventHandler>,
}

impl View for StateConfig {
    type V = Map<StateId, Map<EventId, StateId>>;

    /// The table, seen as a mapping from each declared state to that state's
    /// event-to-target mapping.
    closed spec fn view(&self) -> Map<StateId, Map<EventId, StateId>> {
        self.states@.map_values(|h: StateEventHandler| h@)
    }
}

impl StateConfig {
    /// An empty table: no declared states.
    pub fn new() -> (r: Self)
        ensures
            r@ == Map::<StateId, Map<EventId, StateId>>::empty(),
    {
        let r = StateConfig { states: HashMap::new() };
        proof {
            assert_maps_equal!(r@, Map::<StateId, Map<EventId, StateId>>::empty());
        }
        r
    }

    /// Registers (or overwrites) the handler for `state_key`; returns the
    /// updated table for fluent chaining. Registering the same state twice
    /// silently replaces the prior handler: last write wins.
    pub fn with_state(self, state_key: StateId, handler: StateEventHandler) -> (r: Self)
        ensures
            r@ == self@.insert(state_key, handler@),
    {
        let ghost handler_view = handler@;
        let mut states = self.states;
        states.insert(state_key, handler);
        let r = StateConfig { states };
        proof {
            assert_maps_equal!(r@, self@.insert(state_key, handler_view));
        }
        r
    }
}

/// What a transition query answers: the target registered for `event` under
/// `current` in `table`, or nothing when either lookup misses. A target need
/// not itself be a key of `table`; such dangling targets are legal.
pub open spec fn spec_transition(
    table: Map<StateId, Map<EventId, StateId>>,
    current: StateId,
    event: EventId,
) -> Option<StateId> {
    if table.contains_key(current) && table[current].contains_key(event) {
        Some(table[current][event])
    } else {
        None
    }
}

/// The queryable, immutable wrapper around a completed table. It holds no
/// current state: it is a pure transition function, not a stateful automaton.
pub struct Machine(pub StateConfig);

impl View for Machine {
    type V = Map<StateId, Map<EventId, StateId>>;

    open spec fn view(&self) -> Map<StateId, Map<EventId, StateId>> {
        self.0@
    }
}

impl Machine {
    /// Answers a transition query against the frozen table: the target state
    /// registered for (`current_state`, `event`), or `None` when the current
    /// state is not in the table or does not recognize the event. "No
    /// transition" is a normal outcome, never an error.
    pub fn transition(&self, current_state: State, event: EventId) -> (r: Option<State>)
        ensures
            (match r {
                Some(next) => Some(next.value),
                None => None,
            }) == spec_transition(self@, current_state.value, event),
    {
        if let Some(config) = self.0.states.get(&current_state.value) {
            if let Some(transition) = config.on.get(&event) {
                Some(State { value: transition.target })
            } else {
                None
            }
        } else {
            None
        }
    }
}

/// For all registered (state, event) pairs, a query answers exactly the
/// registered target: `Some` of it, not merely some value.
pub proof fn lemma_registered_pair_transitions(
    table: Map<StateId, Map<EventId, StateId>>,
    state: StateId,
    event: EventId,
)
    requires
        table.contains_key(state),
        table[state].contains_key(event),
    ensures
        spec_transition(table, state, event) == Some(table[state][event]),
{
}

/// For all states present in the table, events not registered under that
/// state yield no transition.
pub proof fn lemma_unhandled_event_yields_none(
    table: Map<StateId, Map<EventId, StateId>>,
    state: StateId,
    event: EventId,
)
    requires
        table.contains_key(state),
        !table[state].contains_key(event),
    ensures
        spec_transition(table, state, event) is None,
{
}

/// For all state values absent from the table, a query yields no transition
/// regardless of the event.
pub proof fn lemma_unknown_state_yields_none(
    table: Map<StateId, Map<EventId, StateId>>,
    state: StateId,
    event: EventId,
)
    requires
        !table.contains_key(state),
    ensures
        spec_transition(table, state, event) is None,
{
}

/// Queries are idempotent: any two results that answer the same query on the
/// same table are equal. There is no hidden state to drift.
pub proof fn lemma_transition_idempotent(
    table: Map<StateId, Map<EventId, StateId>>,
    current: StateId,
    event: EventId,
    first: Option<StateId>,
    second: Option<StateId>,
)
    requires
        first == spec_transition(table, current, event),
        second == spec_transition(table, current, event),
    ensures
        first == second,
{
}

/// Registering the same event twice on one handler leaves only the final
/// registration observable: last write wins.
pub proof fn lemma_event_last_write_wins(
    on: Map<EventId, StateId>,
    event: EventId,
    first: StateId,
    second: StateId,
)
    ensures
        on.insert(event, first).insert(event, second) == on.insert(event, second),
{
    assert_maps_equal!(on.insert(event, first).insert(event, second), on.insert(event, second));
}

/// Registering the same state twice on one table leaves only the final
/// registration observable: last write wins.
pub proof fn lemma_state_last_write_wins(
    states: Map<StateId, Map<EventId, StateId>>,
    state: StateId,
    first: Map<EventId, StateId>,
    second: Map<EventId, StateId>,
)
    ensures
        states.insert(state, first).insert(state, second) == states.insert(state, second),
{
    assert_maps_equal!(
        states.insert(state, first).insert(state, second),
        states.insert(state, second),
    );
}

} // verus!
