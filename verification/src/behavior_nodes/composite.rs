use vstd::prelude::*;
use crate::child::{lemma_idle_is_untouched, Child, ChildView};
use crate::state::{all_mirror, State};
use crate::status::Status;

verus! {

/// The views of a list of nodes, in order.
pub open spec fn views<S>(children: Seq<Child<S>>) -> Seq<ChildView<S>>
    decreases children,
{
    Seq::new(
        children.len(),
        |j: int|
            if 0 <= j < children.len() {
                children[j]@
            } else {
                arbitrary()
            },
    )
}

/// Where the cursor of a control node stands after the child under it has
/// reported `child`, and what the control node reports.
///
/// `pass` is the terminal status on which the control node goes on to its
/// next child: `Success` for a sequence, `Failure` for a select. The other
/// terminal status ends the node at once with that status. When the last
/// child passes, the node ends with `pass`; when an earlier one does, the
/// cursor moves and the node reports `Running`, leaving the next child to
/// the next tick.
pub open spec fn cursor_step(index: nat, len: nat, pass: Status, child: Status) -> (nat, Status) {
    if child == Status::Running {
        (index, Status::Running)
    } else if child != pass {
        (index, child)
    } else if index + 1 == len {
        (index + 1, pass)
    } else {
        (index + 1, Status::Running)
    }
}

/// Moves the cursor of a control node by the rule of `cursor_step`.
pub fn advance_cursor(index: usize, len: usize, pass: Status, child: Status) -> (step: (
    usize,
    Status,
))
    requires
        index < len,
    ensures
        (step.0 as nat, step.1) == cursor_step(index as nat, len as nat, pass, child),
{
    if !child.is_terminal() {
        (index, Status::Running)
    } else if child != pass {
        (index, child)
    } else if index + 1 == len {
        (index + 1, pass)
    } else {
        (index + 1, Status::Running)
    }
}

/// What an observer sees of each node of a list, in order.
pub fn states_of<S>(nodes: &Vec<Child<S>>) -> (states: Vec<State>)
    ensures
        all_mirror(states@, views(nodes@)),
    decreases nodes,
{
    let mut states: Vec<State> = Vec::new();
    let mut j: usize = 0;
    while j < nodes.len()
        invariant
            j <= nodes.len(),
            states.len() == j,
            forall|k: int| 0 <= k < j ==> (#[trigger] states[k]).mirrors(nodes[k]@),
        decreases nodes.len() - j,
    {
        let state = nodes[j].state();
        states.push(state);
        j = j + 1;
    }
    states
}

/// The state of a sequence or a select as contracts see it.
#[verifier::reject_recursive_types(S)]
pub struct CompositeView<S> {
    /// The children, in the order in which they are tried.
    pub children: Seq<ChildView<S>>,
    /// The cursor: the child that the next tick advances. It equals the
    /// number of children once the last one has passed.
    pub index: nat,
    /// Whether the node has reported a terminal status since it was built or
    /// last reset.
    pub completed: bool,
}

impl<S> CompositeView<S> {
    /// The invariant of a control node whose cursor moves on `pass`.
    ///
    /// There is at least one child. Every child before the cursor has
    /// reported `pass`, and no child after the cursor has been advanced. The
    /// child under the cursor has not passed, and the node has completed
    /// exactly if that child has reported the other terminal status or the
    /// cursor is past the last child.
    pub open spec fn wf(self, pass: Status) -> bool
        decreases self,
    {
        &&& pass.terminal()
        &&& self.children.len() > 0
        &&& self.index <= self.children.len()
        &&& forall|j: int| 0 <= j < self.children.len() ==> (#[trigger] self.children[j]).wf()
        &&& forall|j: int|
            0 <= j < self.index ==> (#[trigger] self.children[j]).status == Some(pass)
        &&& forall|j: int|
            self.index < j < self.children.len() ==> (#[trigger] self.children[j]).status is None
        &&& self.index < self.children.len() ==> self.children[self.index as int].status != Some(
            pass,
        )
        &&& self.completed <==> self.index == self.children.len() || self.children[self.index as int].status
            == Some(pass.inverted())
    }

    /// No child has been advanced and the cursor is on the first.
    pub open spec fn pristine(self) -> bool {
        &&& self.index == 0
        &&& !self.completed
        &&& forall|j: int| 0 <= j < self.children.len() ==> (#[trigger] self.children[j]).status is None
    }

    /// The status that the node has last reported: nothing before the first
    /// tick, `pass` once every child has passed, the other terminal status
    /// once a child has reported it, `Running` otherwise.
    pub open spec fn report(self, pass: Status) -> Option<Status> {
        if self.completed {
            if self.index == self.children.len() {
                Some(pass)
            } else {
                Some(pass.inverted())
            }
        } else if self.index == 0 && self.children[0].status is None {
            None
        } else {
            Some(Status::Running)
        }
    }

    /// The last child that a reset has to reach: the one under the cursor,
    /// or the last one when the cursor is past it.
    pub open spec fn last_touched(self) -> int {
        if self.index < self.children.len() {
            self.index as int
        } else {
            self.children.len() - 1
        }
    }

    /// One tick leads from `self` to `next` and reports `status`.
    ///
    /// Only the child under the cursor is ticked, once; every other child is
    /// left exactly as it was. The cursor and the reported status follow
    /// `cursor_step` from what that child reported.
    pub open spec fn ticked(self, pass: Status, delta: u64, next: Self, status: Status) -> bool
        decreases self, 0nat,
    {
        &&& self.index < self.children.len()
        &&& next.children.len() == self.children.len()
        &&& forall|j: int|
            0 <= j < self.children.len() && j != self.index ==> #[trigger] next.children[j]
                == self.children[j]
        &&& self.children[self.index as int].ticked(delta, next.children[self.index as int])
        &&& next.children[self.index as int].status matches Some(child)
        &&& (next.index, status) == cursor_step(self.index, self.children.len(), pass, child)
        &&& next.completed == status.terminal()
    }

    /// A reset leads from `self` to `next`.
    ///
    /// Every child up to the one under the cursor is reset; the children
    /// after it, which were never advanced, are left exactly as they were.
    /// The cursor returns to the first child and the completion flag is
    /// cleared.
    pub open spec fn reset_to(self, next: Self) -> bool
        decreases self,
    {
        &&& next.index == 0
        &&& !next.completed
        &&& next.children.len() == self.children.len()
        &&& forall|j: int|
            0 <= j <= self.last_touched() && j < self.children.len() ==> (
            #[trigger] self.children[j]).reset_to(next.children[j])
        &&& forall|j: int|
            self.last_touched() < j < self.children.len() ==> #[trigger] next.children[j]
                == self.children[j]
    }
}

/// The first child that reports the stopping status decides a control node,
/// in the tick in which it reports it.
///
/// In one tick of a node whose cursor moves on `pass`: the node reports the
/// other terminal status exactly if the child under the cursor reports it in
/// this tick, and reports `pass` exactly if the last child passes in this
/// tick. Whatever is reported, every child before the cursor has passed,
/// and no child after the cursor is touched: each is exactly as before, with
/// nothing in it ever advanced.
pub proof fn lemma_cursor_decides<S>(
    before: CompositeView<S>,
    pass: Status,
    delta: u64,
    after: CompositeView<S>,
    status: Status,
)
    requires
        before.wf(pass),
        !before.completed,
        before.ticked(pass, delta, after, status),
    ensures
        before.index < before.children.len(),
        status == pass.inverted() <==> after.children[before.index as int].status == Some(
            pass.inverted(),
        ),
        status == pass <==> before.index + 1 == before.children.len()
            && after.children[before.index as int].status == Some(pass),
        status == pass.inverted() ==> after.index == before.index,
        forall|j: int| 0 <= j < before.index ==> (#[trigger] after.children[j]).status == Some(pass),
        forall|j: int|
            before.index < j < before.children.len() ==> #[trigger] after.children[j]
                == before.children[j] && after.children[j].untouched(),
{
    assert forall|j: int| before.index < j < before.children.len() implies #[trigger] after.children[j]
        == before.children[j] && after.children[j].untouched() by {
        lemma_idle_is_untouched(before.children[j]);
    }
}

/// What a control node that has stopped early tells about its children.
///
/// In every state of a node whose cursor moves on `pass`: the node shows
/// the other terminal status exactly if the child under the cursor shows it.
/// The children before the cursor have all passed, and no child after the
/// cursor has ever been advanced.
pub proof fn lemma_cursor_position<S>(node: CompositeView<S>, pass: Status)
    requires
        node.wf(pass),
    ensures
        node.report(pass) == Some(pass.inverted()) <==> node.index < node.children.len()
            && node.children[node.index as int].status == Some(pass.inverted()),
        node.report(pass) == Some(pass) <==> node.index == node.children.len(),
        forall|j: int| 0 <= j < node.index ==> (#[trigger] node.children[j]).status == Some(pass),
        forall|j: int|
            node.index < j < node.children.len() ==> (#[trigger] node.children[j]).untouched(),
{
    assert forall|j: int| node.index < j < node.children.len() implies (
    #[trigger] node.children[j]).untouched() by {
        lemma_idle_is_untouched(node.children[j]);
    }
}

/// Tick `t` of a run: the node has not completed, and a tick that brings
/// `deltas[t]` leads from `states[t]` to `states[t + 1]` and reports
/// `reports[t]`.
pub open spec fn is_run_step<S>(
    pass: Status,
    states: Seq<CompositeView<S>>,
    deltas: Seq<u64>,
    reports: Seq<Status>,
    t: int,
) -> bool {
    &&& !states[t].completed
    &&& states[t].ticked(pass, deltas[t], states[t + 1], reports[t])
    &&& states[t + 1].wf(pass)
}

/// A run of a control node whose cursor moves on `pass`: the node starts as
/// it was built, and each state follows from the one before it by a tick
/// that brings the delta and reports the status at the same position.
pub open spec fn is_run<S>(
    pass: Status,
    states: Seq<CompositeView<S>>,
    deltas: Seq<u64>,
    reports: Seq<Status>,
) -> bool {
    &&& states.len() == reports.len() + 1
    &&& deltas.len() == reports.len()
    &&& states[0].wf(pass)
    &&& states[0].pristine()
    &&& forall|t: int|
        0 <= t < reports.len() ==> #[trigger] is_run_step(pass, states, deltas, reports, t)
}

/// In a run the cursor never moves back, and the children after it are
/// still what they were when the node was built.
proof fn lemma_run_keeps_later_children<S>(
    pass: Status,
    states: Seq<CompositeView<S>>,
    deltas: Seq<u64>,
    reports: Seq<Status>,
    early: int,
    late: int,
)
    requires
        is_run(pass, states, deltas, reports),
        0 <= early <= late < states.len(),
    ensures
        states[late].children.len() == states[0].children.len(),
        states[early].index <= states[late].index,
        forall|j: int|
            states[late].index < j < states[0].children.len() ==> #[trigger] states[late].children[j]
                == states[0].children[j],
    decreases late,
{
    if late > 0 {
        if early < late {
            lemma_run_keeps_later_children(pass, states, deltas, reports, early, late - 1);
        } else {
            lemma_run_keeps_later_children(pass, states, deltas, reports, 0, late - 1);
        }
        assert(is_run_step(pass, states, deltas, reports, late - 1));
    }
}

/// In a run, the first child that reports the stopping status decides the
/// node on that very tick, and the children after it are never advanced.
///
/// Let the last tick of a run find the cursor on child `k`, and let child
/// `k` report the stopping status, the terminal status other than `pass`, in
/// that tick. Then the node reports the stopping status on that tick and
/// `Running` on every tick before it. All children before `k` have passed.
/// Every child after `k` is, in every state of the run, exactly what it was
/// when the node was built, with nothing in it ever advanced.
pub proof fn lemma_run_stops_with_first_stop<S>(
    pass: Status,
    states: Seq<CompositeView<S>>,
    deltas: Seq<u64>,
    reports: Seq<Status>,
    k: int,
)
    requires
        is_run(pass, states, deltas, reports),
        reports.len() > 0,
        states[reports.len() - 1].index == k,
        states[reports.len() as int].children[k].status == Some(pass.inverted()),
    ensures
        0 <= k < states[0].children.len(),
        reports[reports.len() - 1] == pass.inverted(),
        forall|t: int| 0 <= t < reports.len() - 1 ==> #[trigger] reports[t] == Status::Running,
        forall|j: int|
            0 <= j < k ==> (#[trigger] states[reports.len() as int].children[j]).status == Some(
                pass,
            ),
        forall|t: int, j: int|
            0 <= t < states.len() && k < j < states[0].children.len() ==> #[trigger] states[t].children[j]
                == states[0].children[j] && states[0].children[j].untouched(),
{
    let last = reports.len() - 1;
    lemma_run_keeps_later_children(pass, states, deltas, reports, 0, last);
    assert(is_run_step(pass, states, deltas, reports, last));
    if last > 0 {
        assert(is_run_step(pass, states, deltas, reports, last - 1));
    }
    lemma_cursor_decides(states[last], pass, deltas[last], states[last + 1], reports[last]);
    assert forall|t: int| 0 <= t < reports.len() - 1 implies #[trigger] reports[t]
        == Status::Running by {
        assert(is_run_step(pass, states, deltas, reports, t));
        assert(is_run_step(pass, states, deltas, reports, t + 1));
    }
    assert forall|t: int, j: int|
        0 <= t < states.len() && k < j < states[0].children.len() implies #[trigger] states[t].children[j]
        == states[0].children[j] && states[0].children[j].untouched() by {
        lemma_idle_is_untouched(states[0].children[j]);
        if t <= last {
            lemma_run_keeps_later_children(pass, states, deltas, reports, t, last);
            lemma_run_keeps_later_children(pass, states, deltas, reports, 0, t);
        }
    }
}

/// The evaluator that a sequence and a select share: an ordered list of
/// children and a cursor that moves over them, one child per tick.
#[verifier::reject_recursive_types(S)]
pub struct Composite<S> {
    children: Vec<Child<S>>,
    index: usize,
    completed: bool,
}

impl<S> Composite<S> {
    pub closed spec fn view(&self) -> CompositeView<S>
        decreases self,
    {
        CompositeView {
            children: views(self.children@),
            index: self.index as nat,
            completed: self.completed,
        }
    }

    /// A control node over children that have not been advanced.
    pub fn new(children: Vec<Child<S>>) -> (state: Self)
        requires
            children.len() > 0,
            forall|j: int| 0 <= j < children.len() ==> (#[trigger] children[j])@.wf(),
            forall|j: int| 0 <= j < children.len() ==> (#[trigger] children[j])@.status is None,
        ensures
            state@.wf(Status::Success),
            state@.wf(Status::Failure),
            state@.pristine(),
            state@.children == views(children@),
    {
        Self { children, index: 0, completed: false }
    }

    /// What an observer sees of the children, in order.
    pub fn children_states(&self) -> (states: Vec<State>)
        ensures
            all_mirror(states@, self@.children),
        decreases self,
    {
        states_of(&self.children)
    }

    /// Ticks the child under the cursor and moves the cursor by what it
    /// reports.
    pub fn tick(&mut self, pass: Status, delta: u64, shared: &mut S) -> (status: Status)
        requires
            old(self)@.wf(pass),
            !old(self)@.completed,
        ensures
            final(self)@.wf(pass),
            old(self)@.ticked(pass, delta, final(self)@, status),
            old(self)@.ticked_with(delta, *old(shared), final(self)@, *final(shared)),
        decreases *old(self),
    {
        let index: usize = self.index;
        let len: usize = self.children.len();
        let child = self.children[index].tick(delta, shared);
        let (next, status) = advance_cursor(index, len, pass, child);
        self.index = next;
        self.completed = status.is_terminal();
        proof {
            assert forall|j: int| 0 <= j < len && j != index implies #[trigger] self@.children[j]
                == old(self)@.children[j] by {}
        }
        status
    }

    /// Resets every child up to the one under the cursor and returns the
    /// cursor to the first child.
    pub fn reset(&mut self, pass: Status, shared: &mut S)
        requires
            old(self)@.wf(pass),
        ensures
            final(self)@.wf(pass),
            final(self)@.pristine(),
            old(self)@.reset_to(final(self)@),
            old(self)@.reset_with(*old(shared), final(self)@, *final(shared)),
        decreases *old(self),
    {
        let len: usize = self.children.len();
        let last: usize = if self.index < len {
            self.index
        } else {
            len - 1
        };
        let ghost mut contexts: Seq<S> = seq![*shared];
        let mut j: usize = 0;
        while j <= last
            invariant
                contexts.len() == j + 1,
                contexts[0] == *old(shared),
                contexts[j as int] == *shared,
                forall|k: int|
                    0 <= k < j ==> (#[trigger] old(self)@.children[k]).reset_with(
                        contexts[k],
                        self@.children[k],
                        contexts[k + 1],
                    ),
                last < len,
                last == old(self)@.last_touched(),
                len == self.children.len(),
                len == old(self)@.children.len(),
                j <= last + 1,
                old(self)@.wf(pass),
                self.index == old(self).index,
                forall|k: int| 0 <= k < j ==> (#[trigger] old(self)@.children[k]).reset_to(self@.children[k]),
                forall|k: int| 0 <= k < j ==> (#[trigger] self@.children[k]).wf(),
                forall|k: int| j <= k < len ==> #[trigger] self.children@[k] == old(self).children@[k],
            decreases last + 1 - j,
        {
            let ghost before = self@;
            assert(old(self)@.children[j as int].wf());
            self.children[j].reset(shared);
            proof {
                contexts = contexts.push(*shared);
                assert forall|k: int| 0 <= k < j + 1 implies (#[trigger] self@.children[k]).wf() by {
                    if k < j {
                        assert(self@.children[k] == before.children[k]);
                    }
                }
                assert forall|k: int| 0 <= k < j + 1 implies (
                #[trigger] old(self)@.children[k]).reset_with(
                    contexts[k],
                    self@.children[k],
                    contexts[k + 1],
                ) by {
                    if k < j {
                        assert(self@.children[k] == before.children[k]);
                    }
                }
            }
            j = j + 1;
        }
        self.index = 0;
        self.completed = false;
        proof {
            assert(contexts.len() == old(self)@.last_touched() + 2);
            assert forall|k: int| 0 <= k < len implies (#[trigger] self@.children[k]).status is None
                && self@.children[k].wf() by {
                if k > last {
                    assert(self@.children[k] == old(self)@.children[k]);
                } else {
                    assert(old(self)@.children[k].reset_to(self@.children[k]));
                }
            }
        }
    }
}

} // verus!
