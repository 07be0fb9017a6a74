use vstd::prelude::*;
use crate::behavior_nodes::composite::{
    is_run, lemma_cursor_decides, lemma_cursor_position, lemma_run_stops_with_first_stop, views,
    Composite, CompositeView,
};
use crate::child::Child;
use crate::state::{all_mirror, State};
use crate::status::Status;

verus! {

/// Runs its children one by one until all have succeeded.
///
/// The sequence fails as soon as a child fails and succeeds once every child
/// has succeeded: a short-circuited logical AND. A tick advances one child
/// only; after a child that is not the last has succeeded, the sequence
/// reports `Running` and takes up the next child on the next tick.
#[verifier::reject_recursive_types(S)]
pub struct SequenceState<S> {
    inner: Composite<S>,
}

impl<S> SequenceState<S> {
    pub closed spec fn view(&self) -> CompositeView<S>
        decreases self,
    {
        self.inner@
    }

    /// A sequence over children that have not been advanced. There has to be
    /// at least one.
    pub fn new(children: Vec<Child<S>>) -> (state: Self)
        requires
            children.len() > 0,
            forall|j: int| 0 <= j < children.len() ==> (#[trigger] children[j])@.wf(),
            forall|j: int| 0 <= j < children.len() ==> (#[trigger] children[j])@.status is None,
        ensures
            state@.wf(Status::Success),
            state@.pristine(),
            state@.children == views(children@),
    {
        Self { inner: Composite::new(children) }
    }

    /// Ticks the child under the cursor. `Success` moves the cursor on and is
    /// reported as `Running`, or as `Success` when it came from the last
    /// child. `Failure` ends the sequence with `Failure`. `Running` is passed
    /// on.
    ///
    /// A sequence that has reported a terminal status has to be reset before
    /// it is ticked again.
    pub fn tick(&mut self, dt: u64, shared: &mut S) -> (status: Status)
        requires
            old(self)@.wf(Status::Success),
            !old(self)@.completed,
        ensures
            final(self)@.wf(Status::Success),
            old(self)@.ticked(Status::Success, dt, final(self)@, status),
            old(self)@.ticked_with(dt, *old(shared), final(self)@, *final(shared)),
        decreases *old(self),
    {
        self.inner.tick(Status::Success, dt, shared)
    }

    /// Resets the children that have been advanced and returns to the first.
    pub fn reset(&mut self, shared: &mut S)
        requires
            old(self)@.wf(Status::Success),
        ensures
            final(self)@.wf(Status::Success),
            final(self)@.pristine(),
            old(self)@.reset_to(final(self)@),
            old(self)@.reset_with(*old(shared), final(self)@, *final(shared)),
        decreases *old(self),
    {
        self.inner.reset(Status::Success, shared)
    }

    /// What an observer sees of the children, in order.
    pub fn children_states(&self) -> (states: Vec<State>)
        ensures
            all_mirror(states@, self@.children),
        decreases self,
    {
        self.inner.children_states()
    }

    /// The display name of the node kind.
    pub fn name(&self) -> (name: &'static str)
        ensures
            name@ == "Sequence"@,
    {
        "Sequence"
    }
}

/// A sequence fails with its first failing child, in the same tick, and
/// never advances the children after it.
///
/// Let the cursor stand on child `k`. The sequence reports `Failure` in a
/// tick exactly if child `k` reports `Failure` in that tick. All children
/// before `k` have succeeded, and the children after `k` are left exactly as
/// they were, with nothing in them ever advanced. The sequence reports
/// `Success` only when its last child succeeds.
pub proof fn law_sequence_fails_with_first_failure<S>(
    before: CompositeView<S>,
    dt: u64,
    after: CompositeView<S>,
    status: Status,
)
    requires
        before.wf(Status::Success),
        !before.completed,
        before.ticked(Status::Success, dt, after, status),
    ensures
        before.index < before.children.len(),
        status == Status::Failure <==> after.children[before.index as int].status == Some(
            Status::Failure,
        ),
        status == Status::Success <==> before.index + 1 == before.children.len()
            && after.children[before.index as int].status == Some(Status::Success),
        status == Status::Failure ==> after.index == before.index,
        forall|j: int|
            0 <= j < before.index ==> (#[trigger] after.children[j]).status == Some(
                Status::Success,
            ),
        forall|j: int|
            before.index < j < before.children.len() ==> #[trigger] after.children[j]
                == before.children[j] && after.children[j].untouched(),
{
    lemma_cursor_decides(before, Status::Success, dt, after, status);
}

/// Over a whole run: if the children before child `k` succeed and child `k`
/// fails, the sequence fails on the tick on which child `k` fails, and the
/// children after `k` are never advanced.
///
/// Take any run of a sequence from the state in which it is built. Let its
/// last tick find the cursor on child `k`, which says that every child before
/// `k` has succeeded, and let child `k` report `Failure` in that tick. Then
/// the sequence reports `Failure` on that tick, having reported `Running` on
/// every tick before. Every child after `k` is, throughout the run, exactly
/// what it was when the sequence was built.
pub proof fn law_sequence_run_fails_at_first_failure<S>(
    states: Seq<CompositeView<S>>,
    deltas: Seq<u64>,
    reports: Seq<Status>,
    k: int,
)
    requires
        is_run(Status::Success, states, deltas, reports),
        reports.len() > 0,
        states[reports.len() - 1].index == k,
        states[reports.len() as int].children[k].status == Some(Status::Failure),
    ensures
        0 <= k < states[0].children.len(),
        reports[reports.len() - 1] == Status::Failure,
        forall|t: int| 0 <= t < reports.len() - 1 ==> #[trigger] reports[t] == Status::Running,
        forall|j: int|
            0 <= j < k ==> (#[trigger] states[reports.len() as int].children[j]).status == Some(
                Status::Success,
            ),
        forall|t: int, j: int|
            0 <= t < states.len() && k < j < states[0].children.len() ==> #[trigger] states[t].children[j]
                == states[0].children[j] && states[0].children[j].untouched(),
{
    lemma_run_stops_with_first_stop(Status::Success, states, deltas, reports, k);
}

/// A sequence shows `Failure` exactly while the child under its cursor does.
/// In every state the children before the cursor have succeeded and the
/// children after it have never been advanced.
pub proof fn law_sequence_children<S>(node: CompositeView<S>)
    requires
        node.wf(Status::Success),
    ensures
        node.report(Status::Success) == Some(Status::Failure) <==> node.index
            < node.children.len() && node.children[node.index as int].status == Some(
            Status::Failure,
        ),
        node.report(Status::Success) == Some(Status::Success) <==> node.index
            == node.children.len(),
        forall|j: int|
            0 <= j < node.index ==> (#[trigger] node.children[j]).status == Some(Status::Success),
        forall|j: int|
            node.index < j < node.children.len() ==> (#[trigger] node.children[j]).untouched(),
{
    lemma_cursor_position(node, Status::Success);
}

} // verus!
