use vstd::prelude::*;
use crate::async_action_interface::AsyncActionRunner;
use crate::async_child::{
    async_views, lemma_reset_up_to_is_untouched, reset_up_to, resets_in_order, AsyncChild,
    AsyncCompositeView,
};
use crate::behavior_nodes::composite::{advance_cursor, cursor_step};
use crate::state::{all_mirror_async, State};
use crate::status::Status;

verus! {

/// What the host does after it has told a control node how a child ended.
#[derive(Debug, Clone, Copy, PartialEq, Eq, Structural)]
pub enum AsyncStep {
    /// Give control back to the scheduler, then run the child that is now
    /// under the cursor. No two children are run without a yield between
    /// them.
    Yield,
    /// The node has finished with this outcome.
    Done(bool),
}

/// What a control node tells the host after a child has ended with
/// `success`, given what its cursor rule reports.
pub open spec fn step_of(status: Status) -> AsyncStep {
    match status {
        Status::Running => AsyncStep::Yield,
        Status::Success => AsyncStep::Done(true),
        Status::Failure => AsyncStep::Done(false),
    }
}

/// What an observer sees of each node of a list, in order.
pub fn async_states_of<A>(nodes: &Vec<AsyncChild<A>>) -> (states: Vec<State>)
    ensures
        all_mirror_async(states@, async_views(nodes@)),
    decreases nodes,
{
    let mut states: Vec<State> = Vec::new();
    let mut j: usize = 0;
    while j < nodes.len()
        invariant
            j <= nodes.len(),
            states.len() == j,
            forall|k: int| 0 <= k < j ==> (#[trigger] states[k]).mirrors_async(nodes[k]@),
        decreases nodes.len() - j,
    {
        let state = nodes[j].state();
        states.push(state);
        j = j + 1;
    }
    states
}

/// Resets the nodes of a list up to position `last`, in order, and leaves
/// the others as they are.
pub fn reset_nodes<A, R>(nodes: &mut Vec<AsyncChild<A>>, last: usize, runner: &mut R) where
    R: AsyncActionRunner<A>,

    ensures
        async_views(final(nodes)@) == reset_up_to(async_views(old(nodes)@), last as int),
        resets_in_order(
            async_views(old(nodes)@),
            if last < old(nodes).len() {
                last + 1
            } else {
                old(nodes).len() as int
            },
            *old(runner),
            *final(runner),
        ),
    decreases *old(nodes),
{
    let len: usize = nodes.len();
    let mut j: usize = 0;
    let ghost mut runners: Seq<R> = seq![*runner];
    while j < len && j <= last
        invariant
            len == nodes.len(),
            len == old(nodes).len(),
            j <= len,
            j <= last + 1,
            forall|k: int| 0 <= k < j ==> (#[trigger] nodes@[k])@ == old(nodes)@[k]@.reset(),
            forall|k: int| j <= k < len ==> #[trigger] nodes@[k] == old(nodes)@[k],
            runners.len() == j + 1,
            runners[0] == *old(runner),
            runners[j as int] == *runner,
            forall|k: int|
                0 <= k < j ==> (#[trigger] async_views(old(nodes)@)[k]).resets(
                    runners[k],
                    runners[k + 1],
                ),
        decreases len - j,
    {
        nodes[j].reset(runner);
        proof {
            runners = runners.push(*runner);
        }
        j = j + 1;
    }
    assert(runners.len() == j + 1);
}

/// The control state that a cooperatively run sequence and select share: an
/// ordered list of children and a cursor that moves over them.
pub struct AsyncComposite<A> {
    children: Vec<AsyncChild<A>>,
    index: usize,
    completed: bool,
}

impl<A> AsyncComposite<A> {
    pub closed spec fn view(&self) -> AsyncCompositeView<A>
        decreases self,
    {
        AsyncCompositeView {
            children: async_views(self.children@),
            index: self.index as nat,
            completed: self.completed,
        }
    }

    /// A control node with its cursor on the first child.
    pub fn new(children: Vec<AsyncChild<A>>) -> (state: Self)
        requires
            children.len() > 0,
            forall|j: int| 0 <= j < children.len() ==> (#[trigger] children[j])@.wf(),
            forall|j: int| 0 <= j < children.len() ==> (#[trigger] children[j])@.untouched(),
        ensures
            state@.wf(),
            state@.children == async_views(children@),
            state@.index == 0,
            !state@.completed,
    {
        Self { children, index: 0, completed: false }
    }

    /// Whether the node has finished and has to be reset before it is run
    /// again.
    pub fn is_completed(&self) -> (completed: bool)
        ensures
            completed == self@.completed,
    {
        self.completed
    }

    /// Whether the cursor stands on a child rather than past the last one.
    pub fn has_current(&self) -> (on_child: bool)
        ensures
            on_child == (self@.index < self@.children.len()),
    {
        self.index < self.children.len()
    }

    /// The child under the cursor, for the host to run.
    pub fn current(&mut self) -> (child: &mut AsyncChild<A>)
        requires
            old(self)@.index < old(self)@.children.len(),
        ensures
            child@ == old(self)@.children[old(self)@.index as int],
            final(self)@.children == old(self)@.children.update(
                old(self)@.index as int,
                final(child)@,
            ),
            final(self)@.index == old(self)@.index,
            final(self)@.completed == old(self)@.completed,
            old(self)@.wf() ==> child@.wf(),
    {
        let index: usize = self.index;
        &mut self.children[index]
    }

    /// Takes note that the child under the cursor has ended with `success`
    /// and moves the cursor by the rule of `cursor_step`, where `pass` is
    /// the status on which the node goes on to its next child.
    pub fn child_done(&mut self, pass: Status, success: bool) -> (step: AsyncStep)
        requires
            old(self)@.index < old(self)@.children.len(),
            !old(self)@.completed,
        ensures
            final(self)@.children == old(self)@.children,
            old(self)@.wf() ==> final(self)@.wf(),
            ({
                let (index, status) = cursor_step(
                    old(self)@.index,
                    old(self)@.children.len(),
                    pass,
                    Status::of_outcome(success),
                );
                &&& final(self)@.index == index
                &&& final(self)@.completed == status.terminal()
                &&& step == step_of(status)
            }),
    {
        let (index, status) = advance_cursor(
            self.index,
            self.children.len(),
            pass,
            Status::from_outcome(success),
        );
        self.index = index;
        self.completed = status.is_terminal();
        match status {
            Status::Running => AsyncStep::Yield,
            Status::Success => AsyncStep::Done(true),
            Status::Failure => AsyncStep::Done(false),
        }
    }

    /// Resets every child up to the one under the cursor and returns the
    /// cursor to the first child.
    pub fn reset<R>(&mut self, runner: &mut R) where R: AsyncActionRunner<A>
        ensures
            final(self)@.children == reset_up_to(old(self)@.children, old(self)@.last_touched()),
            final(self)@.index == 0,
            !final(self)@.completed,
            old(self)@.wf() ==> final(self)@.wf() && forall|j: int|
                0 <= j < final(self)@.children.len() ==> (
                #[trigger] final(self)@.children[j]).untouched(),
            resets_in_order(
                old(self)@.children,
                old(self)@.last_touched() + 1,
                *old(runner),
                *final(runner),
            ),
        decreases *old(self),
    {
        let len: usize = self.children.len();
        if len > 0 {
            let last: usize = if self.index < len {
                self.index
            } else {
                len - 1
            };
            reset_nodes(&mut self.children, last, runner);
        } else {
            assert(seq![*runner].len() == 1);
        }
        self.index = 0;
        self.completed = false;
        proof {
            if old(self)@.wf() {
                lemma_reset_up_to_is_untouched(old(self)@);
            }
        }
    }

    /// What an observer sees of the children, in order.
    pub fn children_states(&self) -> (states: Vec<State>)
        ensures
            all_mirror_async(states@, self@.children),
        decreases self,
    {
        async_states_of(&self.children)
    }
}

} // verus!
