use vstd::prelude::*;
use crate::child::{Child, ChildView};
use crate::state::State;
use crate::status::{settled, Status};

verus! {

/// The state of a loop as contracts see it.
#[verifier::reject_recursive_types(S)]
pub struct LoopView<S> {
    /// The node that is run again and again.
    pub child: Box<ChildView<S>>,
}

impl<S> LoopView<S> {
    /// The child is well formed and never rests on a terminal status: the
    /// loop resets it in the tick in which it finishes.
    pub open spec fn wf(self) -> bool
        decreases self,
    {
        &&& self.child.wf()
        &&& !settled(self.child.status)
    }

    /// The child has not been advanced.
    pub open spec fn pristine(self) -> bool {
        self.child.status is None
    }

    /// One tick leads from `self` to `next` and reports `status`: the child
    /// is ticked once and, if that finished it, reset at once. The loop
    /// reports `Running` whatever the child reported.
    pub open spec fn ticked(self, delta: u64, next: Self, status: Status) -> bool
        decreases self, 0nat,
    {
        &&& status == Status::Running
        &&& self.child.ticked_restarting(delta, *next.child)
    }

    /// A reset leads from `self` to `next`: the child is reset.
    pub open spec fn reset_to(self, next: Self) -> bool
        decreases self,
    {
        self.child.reset_to(*next.child)
    }
}

/// A decorator that runs its child in a loop: whenever the child succeeds or
/// fails it is reset and started again. The loop itself never finishes.
#[verifier::reject_recursive_types(S)]
pub struct LoopState<S> {
    child: Box<Child<S>>,
}

impl<S> LoopState<S> {
    pub closed spec fn view(&self) -> LoopView<S>
        decreases self,
    {
        LoopView { child: Box::new(self.child@) }
    }

    /// A loop around a child that has not been advanced.
    pub fn new(child: Child<S>) -> (state: Self)
        requires
            child@.wf(),
            child@.status is None,
        ensures
            state@.wf(),
            state@.pristine(),
            *state@.child == child@,
    {
        Self { child: Box::new(child) }
    }

    /// Ticks the child once. A child that reports `Success` or `Failure` is
    /// reset at once and starts again on the next tick. The loop always
    /// reports `Running`.
    pub fn tick(&mut self, delta: u64, shared: &mut S) -> (status: Status)
        requires
            old(self)@.wf(),
        ensures
            final(self)@.wf(),
            old(self)@.ticked(delta, final(self)@, status),
            old(self)@.child.ticked_restarting_with(
                delta,
                *old(shared),
                *final(self)@.child,
                *final(shared),
            ),
        decreases *old(self),
    {
        let child_status = self.child.tick(delta, shared);
        if child_status.is_terminal() {
            self.child.reset(shared);
        }
        Status::Running
    }

    /// Resets the child.
    pub fn reset(&mut self, shared: &mut S)
        requires
            old(self)@.wf(),
        ensures
            final(self)@.wf(),
            final(self)@.pristine(),
            old(self)@.reset_to(final(self)@),
            old(self)@.child.reset_with(*old(shared), *final(self)@.child, *final(shared)),
        decreases *old(self),
    {
        self.child.reset(shared);
    }

    /// What an observer sees of the child.
    pub fn child_state(&self) -> (state: State)
        ensures
            state.mirrors(*self@.child),
        decreases self,
    {
        self.child.state()
    }

    /// The display name of the node kind.
    pub fn name(&self) -> (name: &'static str)
        ensures
            name@ == "Loop"@,
    {
        "Loop"
    }
}

/// A loop never shows a terminal status, and a tick of it never reports one.
pub proof fn law_loop_never_finishes<S>(
    before: LoopView<S>,
    delta: u64,
    after: LoopView<S>,
    status: Status,
)
    requires
        before.ticked(delta, after, status),
    ensures
        status == Status::Running,
{
}

} // verus!
