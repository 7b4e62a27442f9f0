use vstd::prelude::*;
use crate::login::{ClientState, Transition};
use crate::update_password::UpdatePasswordData;

verus! {

/// The data a state machine keeps, which each transition updates.
pub trait FsmState<T> {
    fn update(&mut self, tx: &T);
}

/// What drives a state machine: a transition, a plain advance, or a line of input.
pub enum FsmEvent<'a, T> {
    Transition(T),
    Advance,
    Input(&'a str),
}

impl FsmState<Transition> for ClientState {
    fn update(&mut self, tx: &Transition) {
        ClientState::update(self, tx)
    }
}

impl FsmState<crate::update_password::Transition> for UpdatePasswordData {
    fn update(&mut self, tx: &crate::update_password::Transition) {
        UpdatePasswordData::update(self, tx)
    }
}

} // verus!
