use vstd::prelude::*;
use crate::async_action_interface::AsyncActionRunner;
use crate::async_child::{lemma_reset_is_untouched, AsyncChild, AsyncInvertView};
use crate::state::State;

verus! {

/// The control state of a cooperatively run inverter.
///
/// The host runs the child to its end and tells the inverter how it ended;
/// the inverter finishes with the opposite outcome.
pub struct AsyncInvertState<A> {
    child: Box<AsyncChild<A>>,
    completed: bool,
}

impl<A> AsyncInvertState<A> {
    pub closed spec fn view(&self) -> AsyncInvertView<A>
        decreases self,
    {
        AsyncInvertView { completed: self.completed, child: Box::new(self.child@) }
    }

    /// An inverter around a child.
    pub fn new(child: AsyncChild<A>) -> (state: Self)
        requires
            child@.wf(),
            child@.untouched(),
        ensures
            *state@.child == child@,
            !state@.completed,
    {
        Self { child: Box::new(child), completed: false }
    }

    /// Whether the inverter has finished and has to be reset before it is
    /// run again.
    pub fn is_completed(&self) -> (completed: bool)
        ensures
            completed == self@.completed,
    {
        self.completed
    }

    /// The child, for the host to run.
    pub fn child_mut(&mut self) -> (child: &mut AsyncChild<A>)
        ensures
            child@ == *old(self)@.child,
            *final(self)@.child == final(child)@,
            final(self)@.completed == old(self)@.completed,
    {
        &mut *self.child
    }

    /// Takes note that the child has ended with `success` and finishes with
    /// the opposite outcome.
    ///
    /// An inverter that has finished has to be reset before it is run again.
    pub fn child_done(&mut self, success: bool) -> (outcome: bool)
        requires
            !old(self)@.completed,
        ensures
            outcome == !success,
            final(self)@.completed,
            final(self)@.child == old(self)@.child,
    {
        self.completed = true;
        !success
    }

    /// Resets the child, then clears the completion flag.
    pub fn reset<R>(&mut self, runner: &mut R) where R: AsyncActionRunner<A>
        ensures
            *final(self)@.child == old(self)@.child.reset(),
            !final(self)@.completed,
            old(self)@.child.wf() ==> final(self)@.child.wf() && final(self)@.child.untouched(),
            old(self)@.child.resets(*old(runner), *final(runner)),
        decreases *old(self),
    {
        self.child.reset(runner);
        self.completed = false;
        proof {
            if old(self)@.child.wf() {
                lemma_reset_is_untouched(*old(self)@.child);
            }
        }
    }

    /// What an observer sees of the child.
    pub fn child_state(&self) -> (state: State)
        ensures
            state.mirrors_async(*self@.child),
        decreases self,
    {
        self.child.state()
    }

    /// The display name of the node kind.
    pub fn name(&self) -> (name: &'static str)
        ensures
            name@ == "Invert"@,
    {
        "Invert"
    }
}

} // verus!
