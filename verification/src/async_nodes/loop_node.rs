use vstd::prelude::*;
use crate::async_action_interface::AsyncActionRunner;
use crate::async_child::{lemma_reset_is_untouched, AsyncChild, AsyncLoopView};
use crate::state::State;

verus! {

/// The control state of a cooperatively run loop.
///
/// The host runs the child to its end, yields, resets the child and runs it
/// again, for ever: the loop never finishes and is only ever cancelled.
pub struct AsyncLoopState<A> {
    child: Box<AsyncChild<A>>,
}

impl<A> AsyncLoopState<A> {
    pub closed spec fn view(&self) -> AsyncLoopView<A>
        decreases self,
    {
        AsyncLoopView { child: Box::new(self.child@) }
    }

    /// A loop around a child.
    pub fn new(child: AsyncChild<A>) -> (state: Self)
        requires
            child@.wf(),
            child@.untouched(),
        ensures
            *state@.child == child@,
    {
        Self { child: Box::new(child) }
    }

    /// The child, for the host to run and to reset.
    pub fn child_mut(&mut self) -> (child: &mut AsyncChild<A>)
        ensures
            child@ == *old(self)@.child,
            *final(self)@.child == final(child)@,
    {
        &mut *self.child
    }

    /// Resets the child.
    pub fn reset<R>(&mut self, runner: &mut R) where R: AsyncActionRunner<A>
        ensures
            *final(self)@.child == old(self)@.child.reset(),
            old(self)@.child.wf() ==> final(self)@.child.wf() && final(self)@.child.untouched(),
            old(self)@.child.resets(*old(runner), *final(runner)),
        decreases *old(self),
    {
        self.child.reset(runner);
        proof {
            if old(self)@.child.wf() {
                lemma_reset_is_untouched(*old(self)@.child);
            }
        }
    }

    /// What an observer sees of the child.
    pub fn child_state(&self) -> (state: State)
        ensures
            state.mirrors_async(*self@.child),
        decreases self,
    {
        self.child.state()
    }

    /// The display name of the node kind.
    pub fn name(&self) -> (name: &'static str)
        ensures
            name@ == "Loop"@,
    {
        "Loop"
    }
}

} // verus!
