//! The result of feeding one event to a state machine.

use vstd::prelude::*;

verus! {

/// The state after an event, and what the event asks of the outside, in order.
#[derive(Clone, Debug, PartialEq, Eq)]
#[must_use]
pub struct Transition<State, Effect> {
    pub state: State,
    pub effects: Vec<Effect>,
}

impl<State, Effect> Transition<State, Effect> {
    /// The state and the effects, as a mathematical value.
    pub open spec fn view(&self) -> (State, Seq<Effect>) {
        (self.state, self.effects@)
    }

    pub fn new(state: State, effects: Vec<Effect>) -> (transition: Transition<State, Effect>)
        ensures
            transition.state == state,
            transition.effects == effects,
            transition@ == (state, effects@),
    {
        Transition { state, effects }
    }

    pub fn without_effects(state: State) -> (transition: Transition<State, Effect>)
        ensures
            transition@ == (state, Seq::<Effect>::empty()),
    {
        Transition { state, effects: Vec::new() }
    }

    pub fn with_effect(state: State, effect: Effect) -> (transition: Transition<State, Effect>)
        ensures
            transition@ == (state, seq![effect]),
    {
        let mut effects: Vec<Effect> = Vec::new();
        effects.push(effect);
        assert(effects@ =~= seq![effect]);
        Transition { state, effects }
    }
}

/// Whether a transition function answered as its mathematical counterpart does.
pub open spec fn agrees<State, Effect, Error>(
    result: Result<Transition<State, Effect>, Error>,
    expected: Result<(State, Seq<Effect>), Error>,
) -> bool {
    match result {
        Ok(transition) => expected == Ok::<(State, Seq<Effect>), Error>(transition@),
        Err(error) => expected == Err::<(State, Seq<Effect>), Error>(error),
    }
}

} // verus!
