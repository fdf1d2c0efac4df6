use vstd::prelude::*;
use crate::cell::Grid;

verus! {

/// What the step function asks of the loop for the next pass.
#[derive(Debug, PartialEq, Eq, Clone, Copy, Structural)]
pub enum ControlFlow {
    /// Run the step function again at once.
    Continue,
    /// End the loop.
    Stop,
    /// Run the step function again once this many milliseconds have passed
    /// since the pass began.
    Wait(u128),
}

/// What the loop does at a moment of a pass.
#[derive(Debug, PartialEq, Eq, Clone, Copy, Structural)]
pub enum Action {
    /// Call the step function once; the pass is then over.
    Invoke,
    /// Let time pass and ask again.
    Spin,
    /// Leave the loop without calling the step function.
    Exit,
}

/// The action for a pass under `control`, `elapsed` milliseconds after it began.
pub open spec fn action_for(control: ControlFlow, elapsed: u128) -> Action {
    match control {
        ControlFlow::Continue => Action::Invoke,
        ControlFlow::Stop => Action::Exit,
        ControlFlow::Wait(millis) => if elapsed < millis {
            Action::Spin
        } else {
            Action::Invoke
        },
    }
}

/// A state that a step function advances, and the directive it last set.
#[derive(Debug)]
pub struct EventLoop<S> {
    state: S,
    control: ControlFlow,
}

impl<S> EventLoop<S> {
    pub closed spec fn spec_state(&self) -> S {
        self.state
    }

    pub closed spec fn spec_control(&self) -> ControlFlow {
        self.control
    }
}

impl EventLoop<Grid> {
    /// A loop over `state` whose first pass runs at once.
    pub fn new(state: Grid) -> (r: Self)
        ensures
            r.spec_state() == state,
            r.spec_control() == ControlFlow::Continue,
    {
        Self { state, control: ControlFlow::Continue }
    }

    /// The directive for the next pass.
    pub fn control(&self) -> (r: ControlFlow)
        ensures
            r == self.spec_control(),
    {
        self.control
    }

    pub fn state(&self) -> (r: &Grid)
        ensures
            *r == self.spec_state(),
    {
        &self.state
    }

    /// The state and the directive, for the step function to change.
    pub fn parts_mut(&mut self) -> (r: (&mut Grid, &mut ControlFlow))
        ensures
            *r.0 == old(self).spec_state(),
            *r.1 == old(self).spec_control(),
            final(self).spec_state() == *final(r.0),
            final(self).spec_control() == *final(r.1),
    {
        (&mut self.state, &mut self.control)
    }

    /// What to do `elapsed` milliseconds into a pass: under `Continue` call the
    /// step function at once, under `Stop` leave, under `Wait(d)` let time pass
    /// until `d` milliseconds have gone and then call it.
    pub fn next_action(&self, elapsed: u128) -> (r: Action)
        ensures
            r == action_for(self.spec_control(), elapsed),
    {
        match self.control {
            ControlFlow::Continue => Action::Invoke,
            ControlFlow::Stop => Action::Exit,
            ControlFlow::Wait(millis) => if elapsed < millis {
                Action::Spin
            } else {
                Action::Invoke
            },
        }
    }

    /// Ends the loop and hands back its state.
    pub fn into_state(self) -> (r: Grid)
        ensures
            r == self.spec_state(),
    {
        self.state
    }
}

} // verus!
