use vstd::prelude::*;
use crate::async_action_interface::AsyncActionRunner;
use crate::async_child::{
    async_views, reset_up_to, resets_in_order, AsyncChild, AsyncCompositeView,
};
use crate::async_nodes::composite::{step_of, AsyncComposite, AsyncStep};
use crate::behavior_nodes::composite::cursor_step;
use crate::state::{all_mirror_async, State};
use crate::status::Status;

verus! {

/// The control state of a cooperatively run sequence.
///
/// The host runs the child under the cursor to its end and tells the
/// sequence how it ended. The sequence finishes with `false` on the first
/// child that fails and with `true` when the last child has succeeded.
/// Between two children it has the host yield to the scheduler.
pub struct AsyncSequenceState<A> {
    inner: AsyncComposite<A>,
}

impl<A> AsyncSequenceState<A> {
    pub closed spec fn view(&self) -> AsyncCompositeView<A>
        decreases self,
    {
        self.inner@
    }

    /// A sequence with its cursor on the first child. There has to be at
    /// least one child.
    pub fn new(children: Vec<AsyncChild<A>>) -> (state: Self)
        requires
            children.len() > 0,
            forall|j: int| 0 <= j < children.len() ==> (#[trigger] children[j])@.wf(),
            forall|j: int| 0 <= j < children.len() ==> (#[trigger] children[j])@.untouched(),
        ensures
            state@.wf(),
            state@.children == async_views(children@),
            state@.index == 0,
            !state@.completed,
    {
        Self { inner: AsyncComposite::new(children) }
    }

    /// Whether the node has finished and has to be reset before it is run
    /// again.
    pub fn is_completed(&self) -> (completed: bool)
        ensures
            completed == self@.completed,
    {
        self.inner.is_completed()
    }

    /// Whether the cursor stands on a child rather than past the last one.
    pub fn has_current(&self) -> (on_child: bool)
        ensures
            on_child == (self@.index < self@.children.len()),
    {
        self.inner.has_current()
    }

    /// The child under the cursor, for the host to run.
    pub fn current(&mut self) -> (child: &mut AsyncChild<A>)
        requires
            old(self)@.index < old(self)@.children.len(),
        ensures
            child@ == old(self)@.children[old(self)@.index as int],
            final(self)@.children == old(self)@.children.update(
                old(self)@.index as int,
                final(child)@,
            ),
            final(self)@.index == old(self)@.index,
            final(self)@.completed == old(self)@.completed,
            old(self)@.wf() ==> child@.wf(),
    {
        self.inner.current()
    }

    /// Takes note that the child under the cursor has ended with `success`.
    ///
    /// A failure finishes the sequence with `false`. A success of the last
    /// child finishes it with `true`. A success of an earlier child moves the
    /// cursor on and has the host yield before it runs the next child.
    ///
    /// A sequence that has finished has to be reset before it is run again.
    pub fn child_done(&mut self, success: bool) -> (step: AsyncStep)
        requires
            old(self)@.index < old(self)@.children.len(),
            !old(self)@.completed,
        ensures
            final(self)@.children == old(self)@.children,
            old(self)@.wf() ==> final(self)@.wf(),
            ({
                let (index, status) = cursor_step(
                    old(self)@.index,
                    old(self)@.children.len(),
                    Status::Success,
                    Status::of_outcome(success),
                );
                &&& final(self)@.index == index
                &&& final(self)@.completed == status.terminal()
                &&& step == step_of(status)
            }),
    {
        self.inner.child_done(Status::Success, success)
    }

    /// Resets the children that have been run and returns to the first.
    pub fn reset<R>(&mut self, runner: &mut R) where R: AsyncActionRunner<A>
        ensures
            final(self)@.children == reset_up_to(old(self)@.children, old(self)@.last_touched()),
            final(self)@.index == 0,
            !final(self)@.completed,
            old(self)@.wf() ==> final(self)@.wf() && forall|j: int|
                0 <= j < final(self)@.children.len() ==> (
                #[trigger] final(self)@.children[j]).untouched(),
            resets_in_order(
                old(self)@.children,
                old(self)@.last_touched() + 1,
                *old(runner),
                *final(runner),
            ),
        decreases *old(self),
    {
        self.inner.reset(runner)
    }

    /// What an observer sees of the children, in order.
    pub fn children_states(&self) -> (states: Vec<State>)
        ensures
            all_mirror_async(states@, self@.children),
        decreases self,
    {
        self.inner.children_states()
    }

    /// The display name of the node kind.
    pub fn name(&self) -> (name: &'static str)
        ensures
            name@ == "Sequence"@,
    {
        "Sequence"
    }
}

} // verus!
