use vstd::prelude::*;
use crate::behavior_nodes::composite::{
    is_run, lemma_cursor_decides, lemma_cursor_position, lemma_run_stops_with_first_stop, views,
    Composite, CompositeView,
};
use crate::child::Child;
use crate::state::{all_mirror, State};
use crate::status::Status;

verus! {

/// Runs its children one by one until one succeeds.
///
/// The select succeeds as soon as a child succeeds and fails once every child
/// has failed: a short-circuited logical OR. A tick advances one child only;
/// after a child that is not the last has failed, the select reports
/// `Running` and tries the next child on the next tick.
#[verifier::reject_recursive_types(S)]
pub struct SelectState<S> {
    inner: Composite<S>,
}

impl<S> SelectState<S> {
    pub closed spec fn view(&self) -> CompositeView<S>
        decreases self,
    {
        self.inner@
    }

    /// A select over children that have not been advanced. There has to be at
    /// least one.
    pub fn new(children: Vec<Child<S>>) -> (state: Self)
        requires
            children.len() > 0,
            forall|j: int| 0 <= j < children.len() ==> (#[trigger] children[j])@.wf(),
            forall|j: int| 0 <= j < children.len() ==> (#[trigger] children[j])@.status is None,
        ensures
            state@.wf(Status::Failure),
            state@.pristine(),
            state@.children == views(children@),
    {
        Self { inner: Composite::new(children) }
    }

    /// Ticks the child under the cursor. `Failure` moves the cursor on and is
    /// reported as `Running`, or as `Failure` when it came from the last
    /// child. `Success` ends the select with `Success`. `Running` is passed
    /// on.
    ///
    /// A select that has reported a terminal status has to be reset before it
    /// is ticked again.
    pub fn tick(&mut self, dt: u64, shared: &mut S) -> (status: Status)
        requires
            old(self)@.wf(Status::Failure),
            !old(self)@.completed,
        ensures
            final(self)@.wf(Status::Failure),
            old(self)@.ticked(Status::Failure, dt, final(self)@, status),
            old(self)@.ticked_with(dt, *old(shared), final(self)@, *final(shared)),
        decreases *old(self),
    {
        self.inner.tick(Status::Failure, dt, shared)
    }

    /// Resets the children that have been advanced and returns to the first.
    pub fn reset(&mut self, shared: &mut S)
        requires
            old(self)@.wf(Status::Failure),
        ensures
            final(self)@.wf(Status::Failure),
            final(self)@.pristine(),
            old(self)@.reset_to(final(self)@),
            old(self)@.reset_with(*old(shared), final(self)@, *final(shared)),
        decreases *old(self),
    {
        self.inner.reset(Status::Failure, shared)
    }

    /// What an observer sees of the children, in order.
    pub fn children_states(&self) -> (states: Vec<State>)
        ensures
            all_mirror(states@, self@.children),
        decreases self,
    {
        self.inner.children_states()
    }

    /// The display name of the node kind.
    pub fn name(&self) -> (name: &'static str)
        ensures
            name@ == "Select"@,
    {
        "Select"
    }
}

/// A select succeeds with its first succeeding child, in the same tick, and
/// never advances the children after it.
///
/// Let the cursor stand on child `k`. The select reports `Success` in a tick
/// exactly if child `k` reports `Success` in that tick. All children before
/// `k` have failed, and the children after `k` are left exactly as they
/// were, with nothing in them ever advanced. The select reports `Failure`
/// only when its last child fails.
pub proof fn law_select_succeeds_with_first_success<S>(
    before: CompositeView<S>,
    dt: u64,
    after: CompositeView<S>,
    status: Status,
)
    requires
        before.wf(Status::Failure),
        !before.completed,
        before.ticked(Status::Failure, dt, after, status),
    ensures
        before.index < before.children.len(),
        status == Status::Success <==> after.children[before.index as int].status == Some(
            Status::Success,
        ),
        status == Status::Failure <==> before.index + 1 == before.children.len()
            && after.children[before.index as int].status == Some(Status::Failure),
        status == Status::Success ==> after.index == before.index,
        forall|j: int|
            0 <= j < before.index ==> (#[trigger] after.children[j]).status == Some(
                Status::Failure,
            ),
        forall|j: int|
            before.index < j < before.children.len() ==> #[trigger] after.children[j]
                == before.children[j] && after.children[j].untouched(),
{
    lemma_cursor_decides(before, Status::Failure, dt, after, status);
}

/// Over a whole run: if the children before child `k` fail and child `k`
/// succeeds, the select succeeds on the tick on which child `k` succeeds, and
/// the children after `k` are never advanced.
///
/// Take any run of a select from the state in which it is built. Let its last
/// tick find the cursor on child `k`, which says that every child before `k`
/// has failed, and let child `k` report `Success` in that tick. Then the
/// select reports `Success` on that tick, having reported `Running` on every
/// tick before. Every child after `k` is, throughout the run, exactly what it
/// was when the select was built.
pub proof fn law_select_run_succeeds_at_first_success<S>(
    states: Seq<CompositeView<S>>,
    deltas: Seq<u64>,
    reports: Seq<Status>,
    k: int,
)
    requires
        is_run(Status::Failure, states, deltas, reports),
        reports.len() > 0,
        states[reports.len() - 1].index == k,
        states[reports.len() as int].children[k].status == Some(Status::Success),
    ensures
        0 <= k < states[0].children.len(),
        reports[reports.len() - 1] == Status::Success,
        forall|t: int| 0 <= t < reports.len() - 1 ==> #[trigger] reports[t] == Status::Running,
        forall|j: int|
            0 <= j < k ==> (#[trigger] states[reports.len() as int].children[j]).status == Some(
                Status::Failure,
            ),
        forall|t: int, j: int|
            0 <= t < states.len() && k < j < states[0].children.len() ==> #[trigger] states[t].children[j]
                == states[0].children[j] && states[0].children[j].untouched(),
{
    lemma_run_stops_with_first_stop(Status::Failure, states, deltas, reports, k);
}

/// A select shows `Success` exactly while the child under its cursor does.
/// In every state the children before the cursor have failed and the
/// children after it have never been advanced.
pub proof fn law_select_children<S>(node: CompositeView<S>)
    requires
        node.wf(Status::Failure),
    ensures
        node.report(Status::Failure) == Some(Status::Success) <==> node.index
            < node.children.len() && node.children[node.index as int].status == Some(
            Status::Success,
        ),
        node.report(Status::Failure) == Some(Status::Failure) <==> node.index
            == node.children.len(),
        forall|j: int|
            0 <= j < node.index ==> (#[trigger] node.children[j]).status == Some(Status::Failure),
        forall|j: int|
            node.index < j < node.children.len() ==> (#[trigger] node.children[j]).untouched(),
{
    lemma_cursor_position(node, Status::Failure);
}

} // verus!
