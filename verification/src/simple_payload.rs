//! A payload that takes a while and then succeeds, fails or panics, for trying the
//! queue out.
use crate::task::{TaskError, TaskResult};
use std::time::Duration;
use vstd::prelude::*;

verus! {

/// What a simulated task is to do.
pub struct SimplePayload {
    pub duration: Duration,
    pub should_panic: bool,
    pub should_fail: bool,
}

/// How a simulated task goes.
pub enum Simulation {
    /// Panic at once, with this message.
    Panic(&'static str),
    /// Sleep for the duration of the payload and return this.
    Finish(Result<TaskResult, TaskError>),
}

impl SimplePayload {
    /// Decides how the task goes. Panicking comes before failing.
    pub fn simulate(&self) -> (simulation: Simulation)
        ensures
            match simulation {
                Simulation::Panic(message) => self.should_panic && message@
                    == "Simulated panic initiated!"@,
                Simulation::Finish(Err(error)) => !self.should_panic && self.should_fail && (
                error matches TaskError::ExecutionFailed(reason) && reason@
                    == "Simulated failure"@),
                Simulation::Finish(Ok(_)) => !self.should_panic && !self.should_fail,
            },
    {
        if self.should_panic {
            return Simulation::Panic("Simulated panic initiated!");
        }
        if self.should_fail {
            return Simulation::Finish(
                Err(TaskError::ExecutionFailed("Simulated failure".to_string())),
            );
        }
        Simulation::Finish(Ok(TaskResult::Success))
    }
}

} // verus!
