use vstd::prelude::*;
use crate::child::{Child, ChildView, NodeView};
use crate::state::State;
use crate::status::{lemma_invert_involutive, settled, Status};

verus! {

/// The state of an inverter as contracts see it.
#[verifier::reject_recursive_types(S)]
pub struct InvertView<S> {
    /// Whether the inverter has reported a terminal status since it was built
    /// or last reset.
    pub completed: bool,
    /// The node whose status is inverted.
    pub child: Box<ChildView<S>>,
}

impl<S> InvertView<S> {
    /// The child is well formed, and the inverter has completed exactly if
    /// its child has.
    pub open spec fn wf(self) -> bool
        decreases self,
    {
        &&& self.child.wf()
        &&& self.completed <==> settled(self.child.status)
    }

    /// Neither the inverter nor its child has been advanced.
    pub open spec fn pristine(self) -> bool {
        !self.completed && self.child.status is None
    }

    /// The status that the inverter has last reported: that of its child,
    /// inverted. Nothing while the child has reported nothing.
    pub open spec fn report(self) -> Option<Status> {
        match self.child.status {
            Some(status) => Some(status.inverted()),
            None => None,
        }
    }

    /// One tick leads from `self` to `next` and reports `status`: the child
    /// is ticked once, and its status is reported inverted.
    pub open spec fn ticked(self, delta: u64, next: Self, status: Status) -> bool
        decreases self, 0nat,
    {
        &&& self.child.ticked(delta, *next.child)
        &&& next.report() == Some(status)
        &&& next.completed == status.terminal()
    }

    /// A reset leads from `self` to `next`: the child is reset and the
    /// completion flag cleared.
    pub open spec fn reset_to(self, next: Self) -> bool
        decreases self,
    {
        &&& self.child.reset_to(*next.child)
        &&& !next.completed
    }
}

/// A decorator that reports `Failure` for its child's `Success` and the other
/// way round.
#[verifier::reject_recursive_types(S)]
pub struct InvertState<S> {
    child: Box<Child<S>>,
    completed: bool,
}

impl<S> InvertState<S> {
    pub closed spec fn view(&self) -> InvertView<S>
        decreases self,
    {
        InvertView { completed: self.completed, child: Box::new(self.child@) }
    }

    /// An inverter around a child that has not been advanced.
    pub fn new(child: Child<S>) -> (state: Self)
        requires
            child@.wf(),
            child@.status is None,
        ensures
            state@.wf(),
            state@.pristine(),
            *state@.child == child@,
    {
        Self { child: Box::new(child), completed: false }
    }

    /// Ticks the child once and reports its status inverted: `Success` for
    /// `Failure`, `Failure` for `Success`, `Running` unchanged.
    ///
    /// An inverter that has reported a terminal status has to be reset before
    /// it is ticked again.
    pub fn tick(&mut self, delta: u64, shared: &mut S) -> (status: Status)
        requires
            old(self)@.wf(),
            !old(self)@.completed,
        ensures
            final(self)@.wf(),
            old(self)@.ticked(delta, final(self)@, status),
            old(self)@.child.ticked_with(
                delta,
                *old(shared),
                *final(self)@.child,
                *final(shared),
            ),
        decreases *old(self),
    {
        let status = self.child.tick(delta, shared).invert();
        if status.is_terminal() {
            self.completed = true;
        }
        status
    }

    /// Resets the child, then clears the completion flag.
    pub fn reset(&mut self, shared: &mut S)
        requires
            old(self)@.wf(),
        ensures
            final(self)@.wf(),
            final(self)@.pristine(),
            old(self)@.reset_to(final(self)@),
            old(self)@.child.reset_with(*old(shared), *final(self)@.child, *final(shared)),
        decreases *old(self),
    {
        self.child.reset(shared);
        self.completed = false;
    }

    /// What an observer sees of the child.
    pub fn child_state(&self) -> (state: State)
        ensures
            state.mirrors(*self@.child),
        decreases self,
    {
        self.child.state()
    }

    /// The display name of the node kind.
    pub fn name(&self) -> (name: &'static str)
        ensures
            name@ == "Invert"@,
    {
        "Invert"
    }
}

/// Two inverters in a row show what the node below them shows.
///
/// In every state of a node that inverts a node that inverts `inner`, the
/// outer status cell equals that of `inner`, and the cell between them holds
/// it inverted: `Running` where `inner` shows `Running`.
pub proof fn law_double_inversion_shows_inner<S>(outer: ChildView<S>)
    requires
        outer.wf(),
        outer.node is Invert,
        outer.node->Invert_0.child.node is Invert,
    ensures
        ({
            let middle = *outer.node->Invert_0.child;
            let inner = *middle.node->Invert_0.child;
            &&& outer.status == inner.status
            &&& middle.status == middle.node->Invert_0.report()
            &&& inner.status == Some(Status::Running) ==> middle.status == Some(Status::Running)
        }),
{
    reveal_with_fuel(ChildView::wf, 3);
    reveal_with_fuel(NodeView::wf, 3);
    reveal_with_fuel(InvertView::wf, 3);
    let middle = *outer.node->Invert_0.child;
    let inner = *middle.node->Invert_0.child;
    if inner.status is Some {
        lemma_invert_involutive(inner.status->0);
    }
}

/// A tick of two inverters in a row is a tick of the node below them, and
/// reports what that node reports.
///
/// When a node that inverts a node that inverts `inner` is ticked, `inner`
/// is ticked once by the same rule as on its own. The outer node reports the
/// status that `inner` reports, `Success` for `Success` and `Failure` for
/// `Failure`, and `Running` passes through both levels unchanged.
pub proof fn law_double_inversion_ticks_inner<S>(
    outer: ChildView<S>,
    delta: u64,
    after: ChildView<S>,
)
    requires
        outer.node is Invert,
        outer.node->Invert_0.child.node is Invert,
        outer.ticked(delta, after),
    ensures
        after.node is Invert,
        after.node->Invert_0.child.node is Invert,
        ({
            let inner = *outer.node->Invert_0.child.node->Invert_0.child;
            let middle_after = *after.node->Invert_0.child;
            let inner_after = *middle_after.node->Invert_0.child;
            &&& inner.ticked(delta, inner_after)
            &&& after.status == inner_after.status
            &&& inner_after.status matches Some(reported)
            &&& middle_after.status == Some(reported.inverted())
            &&& reported == Status::Running ==> middle_after.status == Some(Status::Running)
        }),
{
    reveal_with_fuel(ChildView::ticked, 3);
    reveal_with_fuel(NodeView::ticked, 3);
    reveal_with_fuel(InvertView::ticked, 3);
    let middle = *outer.node->Invert_0.child;
    let middle_after = *after.node->Invert_0.child;
    assert(middle.ticked(delta, middle_after));
    let inner_after = *middle_after.node->Invert_0.child;
    lemma_invert_involutive(inner_after.status->0);
}

} // verus!
