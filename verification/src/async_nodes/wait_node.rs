use vstd::prelude::*;
use crate::async_nodes::composite::AsyncStep;
use crate::behavior_nodes::wait_node::WaitState;
use crate::status::Status;

verus! {

/// A leaf of a cooperatively run tree that waits for an amount of time. How
/// the time is waited for is the runner's business.
pub struct AsyncWaitState {
    target: u64,
}

impl AsyncWaitState {
    /// The time to wait for.
    pub closed spec fn goal(self) -> u64 {
        self.target
    }

    /// A wait for `target` units of time.
    pub fn new(target: u64) -> (state: Self)
        ensures
            state.goal() == target,
    {
        Self { target }
    }

    /// The time to wait for.
    pub fn target(&self) -> (target: u64)
        ensures
            target == self.goal(),
    {
        self.target
    }

    /// One step of waiting by accumulated time: what to do after the source
    /// of elapsed time has answered.
    ///
    /// `Some(dt)` is the time that the latest tick brought: it is added to
    /// what `wait` has accumulated, and the wait is done, with success, once
    /// that reaches the target; until then the host yields and asks the
    /// source again. `None` says that the source has closed, because its
    /// executor is shutting down: the wait ends at once and gracefully, as if
    /// it had succeeded, and leaves `wait` as it is.
    pub fn progress(wait: &mut WaitState, delta: Option<u64>) -> (step: AsyncStep)
        requires
            !old(wait)@.completed,
        ensures
            match delta {
                Some(dt) => {
                    &&& final(wait)@ == old(wait)@.advanced(dt)
                    &&& step == if final(wait)@.completed {
                        AsyncStep::Done(true)
                    } else {
                        AsyncStep::Yield
                    }
                },
                None => final(wait)@ == old(wait)@ && step == AsyncStep::Done(true),
            },
    {
        match delta {
            Some(dt) => {
                match wait.tick(dt, &mut ()) {
                    Status::Running => AsyncStep::Yield,
                    _ => AsyncStep::Done(true),
                }
            },
            None => AsyncStep::Done(true),
        }
    }

    /// The display name of the node kind.
    pub fn name(&self) -> (name: &'static str)
        ensures
            name@ == "Wait"@,
    {
        "Wait"
    }
}

} // verus!
