//! The supervisor's lifecycle cell.  All tasks wait for `Running`
//! before doing work and unwind on `Stop`; the transitions here are
//! the re-run protection of the control plane.

use vstd::prelude::*;

verus! {

/// The lifecycle of the control plane.
#[derive(Debug, Clone, Copy, PartialEq, Eq, PartialOrd, Ord, Hash, Structural)]
pub enum ControllerState {
    Init,
    Running,
    Stop,
}

/// The single-writer lifecycle cell.  The runtime broadcasts each
/// transition to the spawned tasks.
pub struct Supervisor {
    state: ControllerState,
}

impl Supervisor {
    pub closed spec fn state(self) -> ControllerState {
        self.state
    }

    pub fn new() -> (r: Self)
        ensures
            r.state() == ControllerState::Init,
    {
        Supervisor { state: ControllerState::Init }
    }

    /// Starts the plane.  Calling it from any state but `Init` is a
    /// programmer error; the precondition rules it out.
    pub fn init(&mut self)
        requires
            old(self).state() == ControllerState::Init,
        ensures
            final(self).state() == ControllerState::Running,
    {
        self.state = ControllerState::Running;
    }

    /// Stops the plane.  Stopping before `init` or twice is a
    /// programmer error; the precondition rules it out.
    pub fn stop(&mut self)
        requires
            old(self).state() == ControllerState::Running,
        ensures
            final(self).state() == ControllerState::Stop,
    {
        self.state = ControllerState::Stop;
    }

    /// What a task waiting for startup checks: the plane has left
    /// `Init`.
    pub fn past_init(&self) -> (r: bool)
        ensures
            r == (self.state() != ControllerState::Init),
    {
        match self.state {
            ControllerState::Init => false,
            _ => true,
        }
    }

    /// What a task waiting for shutdown checks: the plane reached
    /// `Stop`.
    pub fn stopped(&self) -> (r: bool)
        ensures
            r == (self.state() == ControllerState::Stop),
    {
        match self.state {
            ControllerState::Stop => true,
            _ => false,
        }
    }

    pub fn current(&self) -> (r: ControllerState)
        ensures
            r == self.state(),
    {
        self.state
    }
}

} // verus!
