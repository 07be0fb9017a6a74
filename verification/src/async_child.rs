use vstd::prelude::*;
use crate::async_action_interface::{action_shows, AsyncActionName, AsyncActionRunner};
use crate::async_nodes::action_node::{runner_reset, AsyncActionState};
use crate::async_nodes::invert_node::AsyncInvertState;
use crate::async_nodes::loop_node::AsyncLoopState;
use crate::async_nodes::select_node::AsyncSelectState;
use crate::async_nodes::sequence_node::AsyncSequenceState;
use crate::async_nodes::wait_node::AsyncWaitState;
use crate::async_nodes::while_all_node::AsyncWhileAll;
use crate::behavior::Behavior;
use crate::state::State;
use crate::status::{settled, Status};

verus! {

/// The state of a cooperatively run inverter as contracts see it.
pub struct AsyncInvertView<A> {
    /// Whether the inverter has finished since it was built or last reset.
    pub completed: bool,
    /// The node whose outcome is inverted.
    pub child: Box<AsyncChildView<A>>,
}

/// The state of a cooperatively run sequence or select as contracts see it.
pub struct AsyncCompositeView<A> {
    /// The children, in the order in which they are run.
    pub children: Seq<AsyncChildView<A>>,
    /// The cursor: the child that is run next. It equals the number of
    /// children once the last one has passed.
    pub index: nat,
    /// Whether the node has finished since it was built or last reset.
    pub completed: bool,
}

/// The state of a cooperatively run loop as contracts see it.
pub struct AsyncLoopView<A> {
    /// The node that is run again and again.
    pub child: Box<AsyncChildView<A>>,
}

/// The state of a cooperatively run guarded loop as contracts see it.
pub struct AsyncWhileAllView<A> {
    /// The guards.
    pub guards: Seq<AsyncChildView<A>>,
    /// The node that runs while the guards hold.
    pub child: Box<AsyncChildView<A>>,
}

/// The evaluator of a cooperatively run node as contracts see it, one
/// variant per node kind. A leaf action is its payload.
pub enum AsyncNodeView<A> {
    Action(A),
    Wait(u64),
    Invert(AsyncInvertView<A>),
    Sequence(AsyncCompositeView<A>),
    Select(AsyncCompositeView<A>),
    Loop(AsyncLoopView<A>),
    WhileAll(AsyncWhileAllView<A>),
}

/// A node of a cooperatively run tree as contracts see it.
pub struct AsyncChildView<A> {
    /// The display name.
    pub name: Seq<char>,
    /// The status that the node has last shown: `Running` from the moment it
    /// is started, a terminal status once it has finished, `None` while it
    /// has not been started since it was built or last reset.
    pub status: Option<Status>,
    /// The evaluator.
    pub node: AsyncNodeView<A>,
}

impl<A> AsyncCompositeView<A> {
    /// The last child that a reset has to reach: the one under the cursor,
    /// or the last one when the cursor is past it.
    pub open spec fn last_touched(self) -> int {
        if self.index < self.children.len() {
            self.index as int
        } else {
            self.children.len() - 1
        }
    }
}

impl<A> AsyncCompositeView<A> {
    /// The invariant of a cooperatively run sequence or select: there is at
    /// least one child, the cursor is on a child or just past the last one,
    /// every child is well formed, and no child after the cursor has been
    /// started.
    pub open spec fn wf(self) -> bool
        decreases self,
    {
        &&& self.children.len() > 0
        &&& self.index <= self.children.len()
        &&& forall|j: int| 0 <= j < self.children.len() ==> (#[trigger] self.children[j]).wf()
        &&& forall|j: int|
            self.index < j < self.children.len() ==> (#[trigger] self.children[j]).untouched()
    }
}

impl<A> AsyncWhileAllView<A> {
    /// The invariant of a cooperatively run guarded loop: there is at least
    /// one guard, and every guard and the child are well formed.
    pub open spec fn wf(self) -> bool
        decreases self,
    {
        &&& self.guards.len() > 0
        &&& forall|g: int| 0 <= g < self.guards.len() ==> (#[trigger] self.guards[g]).wf()
        &&& self.child.wf()
    }
}

impl<A> AsyncNodeView<A> {
    /// The invariant of the evaluator.
    pub open spec fn wf(self) -> bool
        decreases self,
    {
        match self {
            AsyncNodeView::Action(_) => true,
            AsyncNodeView::Wait(_) => true,
            AsyncNodeView::Invert(invert) => invert.child.wf(),
            AsyncNodeView::Sequence(sequence) => sequence.wf(),
            AsyncNodeView::Select(select) => select.wf(),
            AsyncNodeView::Loop(repeat) => repeat.child.wf(),
            AsyncNodeView::WhileAll(guarded) => guarded.wf(),
        }
    }

    /// Nothing in the evaluator or below it has been started since it was
    /// built or last reset.
    pub open spec fn untouched(self) -> bool
        decreases self,
    {
        match self {
            AsyncNodeView::Action(_) => true,
            AsyncNodeView::Wait(_) => true,
            AsyncNodeView::Invert(invert) => !invert.completed && invert.child.untouched(),
            AsyncNodeView::Sequence(sequence) => {
                &&& sequence.index == 0
                &&& !sequence.completed
                &&& forall|j: int|
                    0 <= j < sequence.children.len() ==> (
                    #[trigger] sequence.children[j]).untouched()
            },
            AsyncNodeView::Select(select) => {
                &&& select.index == 0
                &&& !select.completed
                &&& forall|j: int|
                    0 <= j < select.children.len() ==> (#[trigger] select.children[j]).untouched()
            },
            AsyncNodeView::Loop(repeat) => repeat.child.untouched(),
            AsyncNodeView::WhileAll(guarded) => {
                &&& forall|g: int|
                    0 <= g < guarded.guards.len() ==> (#[trigger] guarded.guards[g]).untouched()
                &&& guarded.child.untouched()
            },
        }
    }

    /// What a reset of the evaluator asks of the runner: the runner's
    /// `reset` is called once for every leaf action that the reset reaches,
    /// in the order of the tree, and nothing else is done to the runner.
    /// These calls lead the runner from `before` to `after`.
    pub open spec fn resets<R: AsyncActionRunner<A>>(self, before: R, after: R) -> bool
        decreases self,
    {
        match self {
            AsyncNodeView::Action(action) => runner_reset(before, action, after),
            AsyncNodeView::Wait(_) => after == before,
            AsyncNodeView::Invert(invert) => invert.child.resets(before, after),
            AsyncNodeView::Sequence(sequence) => resets_in_order(
                sequence.children,
                sequence.last_touched() + 1,
                before,
                after,
            ),
            AsyncNodeView::Select(select) => resets_in_order(
                select.children,
                select.last_touched() + 1,
                before,
                after,
            ),
            AsyncNodeView::Loop(repeat) => repeat.child.resets(before, after),
            AsyncNodeView::WhileAll(guarded) => resets_guarded(guarded, before, after),
        }
    }

    /// The display name of a control node or a wait leaf. A leaf action
    /// names itself.
    pub open spec fn kind_name(self) -> Option<Seq<char>> {
        match self {
            AsyncNodeView::Action(_) => None,
            AsyncNodeView::Wait(_) => Some("Wait"@),
            AsyncNodeView::Invert(_) => Some("Invert"@),
            AsyncNodeView::Sequence(_) => Some("Sequence"@),
            AsyncNodeView::Select(_) => Some("Select"@),
            AsyncNodeView::Loop(_) => Some("Loop"@),
            AsyncNodeView::WhileAll(_) => Some("WhileAll"@),
        }
    }

    /// The evaluator after a reset. See `AsyncChildView::reset`.
    pub open spec fn reset(self) -> Self
        decreases self,
    {
        match self {
            AsyncNodeView::Action(action) => AsyncNodeView::Action(action),
            AsyncNodeView::Wait(target) => AsyncNodeView::Wait(target),
            AsyncNodeView::Invert(invert) => AsyncNodeView::Invert(
                AsyncInvertView { completed: false, child: Box::new(invert.child.reset()) },
            ),
            AsyncNodeView::Sequence(sequence) => AsyncNodeView::Sequence(
                AsyncCompositeView {
                    children: reset_up_to(sequence.children, sequence.last_touched()),
                    index: 0,
                    completed: false,
                },
            ),
            AsyncNodeView::Select(select) => AsyncNodeView::Select(
                AsyncCompositeView {
                    children: reset_up_to(select.children, select.last_touched()),
                    index: 0,
                    completed: false,
                },
            ),
            AsyncNodeView::Loop(repeat) => AsyncNodeView::Loop(
                AsyncLoopView { child: Box::new(repeat.child.reset()) },
            ),
            AsyncNodeView::WhileAll(guarded) => AsyncNodeView::WhileAll(
                AsyncWhileAllView {
                    guards: reset_up_to(guarded.guards, guarded.guards.len() - 1),
                    child: Box::new(guarded.child.reset()),
                },
            ),
        }
    }
}

/// The first `count` nodes of the list are reset one after the other, and
/// the runner goes from `before` to `after` through the states in between:
/// there is a runner state before and after each of these resets.
pub open spec fn resets_in_order<A, R: AsyncActionRunner<A>>(
    nodes: Seq<AsyncChildView<A>>,
    count: int,
    before: R,
    after: R,
) -> bool
    decreases nodes,
{
    exists|runners: Seq<R>|
        {
            &&& #[trigger] runners.len() == count + 1
            &&& runners[0] == before
            &&& runners[count] == after
            &&& forall|j: int|
                0 <= j < count && j < nodes.len() ==> (#[trigger] nodes[j]).resets(
                    runners[j],
                    runners[j + 1],
                )
        }
}

/// The guards are cancelled one after the other and then the child, and the
/// runner goes from `before` to `after` through the states in between: only
/// the nodes that show `Running` ask anything of it.
pub open spec fn cancels_guarded<A, R: AsyncActionRunner<A>>(
    guarded: AsyncWhileAllView<A>,
    before: R,
    after: R,
) -> bool {
    exists|runners: Seq<R>|
        {
            &&& #[trigger] runners.len() == guarded.guards.len() + 2
            &&& runners[0] == before
            &&& runners[guarded.guards.len() as int + 1] == after
            &&& forall|j: int|
                0 <= j < guarded.guards.len() ==> (#[trigger] guarded.guards[j]).cancels(
                    runners[j],
                    runners[j + 1],
                )
            &&& guarded.child.cancels(
                runners[guarded.guards.len() as int],
                runners[guarded.guards.len() as int + 1],
            )
        }
}

/// The guards are reset one after the other and then the child, and the
/// runner goes from `before` to `after` through the states in between.
pub open spec fn resets_guarded<A, R: AsyncActionRunner<A>>(
    guarded: AsyncWhileAllView<A>,
    before: R,
    after: R,
) -> bool
    decreases guarded,
{
    exists|runners: Seq<R>|
        {
            &&& #[trigger] runners.len() == guarded.guards.len() + 2
            &&& runners[0] == before
            &&& runners[guarded.guards.len() as int + 1] == after
            &&& forall|j: int|
                0 <= j < guarded.guards.len() ==> (#[trigger] guarded.guards[j]).resets(
                    runners[j],
                    runners[j + 1],
                )
            &&& guarded.child.resets(
                runners[guarded.guards.len() as int],
                runners[guarded.guards.len() as int + 1],
            )
        }
}

/// The list with every node up to position `last` reset and the others as
/// they are.
pub open spec fn reset_up_to<A>(nodes: Seq<AsyncChildView<A>>, last: int) -> Seq<
    AsyncChildView<A>,
>
    decreases nodes,
{
    Seq::new(
        nodes.len(),
        |j: int|
            if 0 <= j < nodes.len() && j <= last {
                nodes[j].reset()
            } else {
                nodes[j]
            },
    )
}

impl<A> AsyncChildView<A> {
    /// The node after a reset: the status cell is emptied, every completion
    /// flag cleared and every cursor returned to the first child. A sequence
    /// or select resets its children up to the one under its cursor and
    /// leaves the later ones, which were never started, as they are. Names,
    /// payloads and wait targets stay.
    pub open spec fn reset(self) -> Self
        decreases self,
    {
        AsyncChildView { name: self.name, status: None, node: self.node.reset() }
    }

    /// What a reset of the node asks of the runner: see
    /// `AsyncNodeView::resets`.
    pub open spec fn resets<R: AsyncActionRunner<A>>(self, before: R, after: R) -> bool
        decreases self,
    {
        self.node.resets(before, after)
    }

    /// What cancelling the node asks of the runner: what a reset asks if the
    /// node shows `Running`, and nothing otherwise.
    pub open spec fn cancels<R: AsyncActionRunner<A>>(self, before: R, after: R) -> bool {
        if self.status == Some(Status::Running) {
            self.resets(before, after)
        } else {
            after == before
        }
    }

    /// The node after it has been cancelled: a node that shows `Running` is
    /// reset, any other node is left as it is.
    pub open spec fn cancelled(self) -> Self {
        if self.status == Some(Status::Running) {
            self.reset()
        } else {
            self
        }
    }

    /// The invariant of a cooperatively run node: that of its evaluator.
    pub open spec fn wf(self) -> bool
        decreases self,
    {
        self.node.wf()
    }

    /// Nothing in the node or below it has been started since it was built
    /// or last reset: every status cell is empty, every cursor on the first
    /// child and every flag cleared.
    pub open spec fn untouched(self) -> bool
        decreases self,
    {
        self.status is None && self.node.untouched()
    }

    /// The node has the structure that the schema describes: the same kind
    /// at every place, with the display name of the kind, children in the
    /// same number and order, the payloads and the wait targets of the
    /// schema. A leaf shows the name that its payload gives itself.
    pub open spec fn realizes(self, behavior: Behavior<A>) -> bool where A: AsyncActionName
        decreases behavior,
    {
        &&& self.node.kind_name() matches Some(name) ==> self.name == name
        &&& match behavior {
            Behavior::Action(action) => self.node == AsyncNodeView::Action(action) && action_shows(
                action,
                self.name,
            ),
            Behavior::Wait(target) => self.node == AsyncNodeView::<A>::Wait(target),
            Behavior::Invert(child) => self.node matches AsyncNodeView::Invert(invert)
                && invert.child.realizes(*child),
            Behavior::Sequence(children) => {
                &&& self.node matches AsyncNodeView::Sequence(sequence)
                &&& sequence.children.len() == children.len()
                &&& forall|j: int|
                    0 <= j < children.len() ==> sequence.children[j].realizes(
                        #[trigger] children[j],
                    )
            },
            Behavior::Select(children) => {
                &&& self.node matches AsyncNodeView::Select(select)
                &&& select.children.len() == children.len()
                &&& forall|j: int|
                    0 <= j < children.len() ==> select.children[j].realizes(#[trigger] children[j])
            },
            Behavior::Loop(child) => self.node matches AsyncNodeView::Loop(repeat)
                && repeat.child.realizes(*child),
            Behavior::WhileAll(conditions, child) => {
                &&& self.node matches AsyncNodeView::WhileAll(guarded)
                &&& guarded.guards.len() == conditions.len()
                &&& forall|j: int|
                    0 <= j < conditions.len() ==> guarded.guards[j].realizes(
                        #[trigger] conditions[j],
                    )
                &&& guarded.child.realizes(*child)
            },
        }
    }
}

/// The list with every node cancelled.
pub open spec fn all_cancelled<A>(nodes: Seq<AsyncChildView<A>>) -> Seq<AsyncChildView<A>> {
    Seq::new(nodes.len(), |j: int| nodes[j].cancelled())
}

/// A reset leaves a well-formed node well formed and untouched: no status
/// cell in it shows anything, whatever had been started before.
pub proof fn lemma_reset_is_untouched<A>(node: AsyncChildView<A>)
    requires
        node.wf(),
    ensures
        node.reset().wf(),
        node.reset().untouched(),
    decreases node,
{
    reveal_with_fuel(AsyncChildView::wf, 2);
    reveal_with_fuel(AsyncNodeView::wf, 2);
    reveal_with_fuel(AsyncChildView::untouched, 2);
    reveal_with_fuel(AsyncNodeView::untouched, 2);
    reveal_with_fuel(AsyncChildView::reset, 2);
    reveal_with_fuel(AsyncNodeView::reset, 2);
    match node.node {
        AsyncNodeView::Action(_) => {},
        AsyncNodeView::Wait(_) => {},
        AsyncNodeView::Invert(invert) => {
            lemma_reset_is_untouched(*invert.child);
        },
        AsyncNodeView::Sequence(sequence) => {
            lemma_reset_up_to_is_untouched(sequence);
        },
        AsyncNodeView::Select(select) => {
            lemma_reset_up_to_is_untouched(select);
        },
        AsyncNodeView::Loop(repeat) => {
            lemma_reset_is_untouched(*repeat.child);
        },
        AsyncNodeView::WhileAll(guarded) => {
            let after = reset_up_to(guarded.guards, guarded.guards.len() - 1);
            assert forall|g: int| 0 <= g < after.len() implies (#[trigger] after[g]).wf()
                && after[g].untouched() by {
                lemma_reset_is_untouched(guarded.guards[g]);
            }
            lemma_reset_is_untouched(*guarded.child);
        },
    }
}

/// After the reset of a well-formed sequence or select, every child is well
/// formed and untouched.
pub proof fn lemma_reset_up_to_is_untouched<A>(node: AsyncCompositeView<A>)
    requires
        node.wf(),
    ensures
        forall|j: int|
            0 <= j < node.children.len() ==> (#[trigger] reset_up_to(
                node.children,
                node.last_touched(),
            )[j]).wf() && reset_up_to(node.children, node.last_touched())[j].untouched(),
        reset_up_to(node.children, node.last_touched()).len() == node.children.len(),
    decreases node,
{
    let after = reset_up_to(node.children, node.last_touched());
    assert forall|j: int| 0 <= j < node.children.len() implies (#[trigger] after[j]).wf()
        && after[j].untouched() by {
        if j <= node.last_touched() {
            lemma_reset_is_untouched(node.children[j]);
        }
    }
}

/// A reset of a node in which nothing has been started changes nothing in
/// the node or below it.
pub proof fn law_reset_of_untouched_changes_nothing<A>(node: AsyncChildView<A>)
    requires
        node.untouched(),
    ensures
        node.reset() == node,
    decreases node,
{
    reveal_with_fuel(AsyncChildView::untouched, 2);
    reveal_with_fuel(AsyncNodeView::untouched, 2);
    reveal_with_fuel(AsyncChildView::reset, 2);
    reveal_with_fuel(AsyncNodeView::reset, 2);
    match node.node {
        AsyncNodeView::Action(_) => {},
        AsyncNodeView::Wait(_) => {},
        AsyncNodeView::Invert(invert) => {
            law_reset_of_untouched_changes_nothing(*invert.child);
        },
        AsyncNodeView::Sequence(sequence) => {
            let after = reset_up_to(sequence.children, sequence.last_touched());
            assert forall|j: int| 0 <= j < sequence.children.len() implies after[j]
                == sequence.children[j] by {
                law_reset_of_untouched_changes_nothing(sequence.children[j]);
            }
            assert(after =~= sequence.children);
        },
        AsyncNodeView::Select(select) => {
            let after = reset_up_to(select.children, select.last_touched());
            assert forall|j: int| 0 <= j < select.children.len() implies after[j]
                == select.children[j] by {
                law_reset_of_untouched_changes_nothing(select.children[j]);
            }
            assert(after =~= select.children);
        },
        AsyncNodeView::Loop(repeat) => {
            law_reset_of_untouched_changes_nothing(*repeat.child);
        },
        AsyncNodeView::WhileAll(guarded) => {
            let after = reset_up_to(guarded.guards, guarded.guards.len() - 1);
            assert forall|g: int| 0 <= g < guarded.guards.len() implies after[g]
                == guarded.guards[g] by {
                law_reset_of_untouched_changes_nothing(guarded.guards[g]);
            }
            assert(after =~= guarded.guards);
            law_reset_of_untouched_changes_nothing(*guarded.child);
        },
    }
}

/// A reset can be made at any time, in whatever state a run was abandoned:
/// it leaves a node in which no status cell shows anything, and a second
/// reset changes nothing that the first has left.
pub proof fn law_reset_is_safe_at_any_time<A>(node: AsyncChildView<A>)
    requires
        node.wf(),
    ensures
        node.reset().wf(),
        node.reset().untouched(),
        node.reset().reset() == node.reset(),
{
    lemma_reset_is_untouched(node);
    law_reset_of_untouched_changes_nothing(node.reset());
}

/// A reset makes a cooperatively run node what it was when it was built.
///
/// Let `node` be any node of a tree built from `behavior`, however far its
/// run has come. After a reset it meets everything that building promises
/// of a new node: it is well formed, nothing in it has been started, and it
/// has the structure, the names, the payloads and the wait targets of
/// `behavior`. So its next run starts from the state from which the first
/// run of a newly built node starts.
pub proof fn law_async_reset_restores_built_state<A: AsyncActionName>(
    node: AsyncChildView<A>,
    behavior: Behavior<A>,
)
    requires
        node.wf(),
        node.realizes(behavior),
    ensures
        node.reset().wf(),
        node.reset().untouched(),
        node.reset().realizes(behavior),
    decreases behavior,
{
    lemma_reset_is_untouched(node);
    reveal_with_fuel(AsyncChildView::reset, 2);
    reveal_with_fuel(AsyncNodeView::reset, 2);
    reveal_with_fuel(AsyncChildView::wf, 2);
    reveal_with_fuel(AsyncNodeView::wf, 2);
    match behavior {
        Behavior::Action(_) => {},
        Behavior::Wait(_) => {},
        Behavior::Invert(child) => {
            law_async_reset_restores_built_state(*node.node->Invert_0.child, *child);
        },
        Behavior::Sequence(children) => {
            let before = node.node->Sequence_0;
            let after = reset_up_to(before.children, before.last_touched());
            assert forall|j: int| 0 <= j < children@.len() implies after[j].realizes(
                #[trigger] children@[j],
            ) by {
                law_async_reset_restores_built_state(before.children[j], children@[j]);
            }
        },
        Behavior::Select(children) => {
            let before = node.node->Select_0;
            let after = reset_up_to(before.children, before.last_touched());
            assert forall|j: int| 0 <= j < children@.len() implies after[j].realizes(
                #[trigger] children@[j],
            ) by {
                law_async_reset_restores_built_state(before.children[j], children@[j]);
            }
        },
        Behavior::Loop(child) => {
            law_async_reset_restores_built_state(*node.node->Loop_0.child, *child);
        },
        Behavior::WhileAll(conditions, child) => {
            let before = node.node->WhileAll_0;
            let after = reset_up_to(before.guards, before.guards.len() - 1);
            assert forall|g: int| 0 <= g < conditions@.len() implies after[g].realizes(
                #[trigger] conditions@[g],
            ) by {
                law_async_reset_restores_built_state(before.guards[g], conditions@[g]);
            }
            law_async_reset_restores_built_state(*before.child, *child);
        },
    }
}

/// Whatever is done to the child under the cursor of a well-formed sequence
/// or select, the node stays well formed if that child does.
pub proof fn law_current_child_keeps_invariant<A>(node: AsyncCompositeView<A>, child: AsyncChildView<A>)
    requires
        node.wf(),
        node.index < node.children.len(),
        child.wf(),
    ensures
        (AsyncCompositeView {
            children: node.children.update(node.index as int, child),
            index: node.index,
            completed: node.completed,
        }).wf(),
{
    let after = node.children.update(node.index as int, child);
    assert forall|j: int| 0 <= j < after.len() implies (#[trigger] after[j]).wf() by {
        if j != node.index {
            assert(node.children[j].wf());
        }
    }
    assert forall|j: int| node.index < j < after.len() implies (#[trigger] after[j]).untouched() by {
        assert(node.children[j].untouched());
    }
}

/// The views of a list of nodes, in order.
pub open spec fn async_views<A>(children: Seq<AsyncChild<A>>) -> Seq<AsyncChildView<A>>
    decreases children,
{
    Seq::new(
        children.len(),
        |j: int|
            if 0 <= j < children.len() {
                children[j]@
            } else {
                arbitrary()
            },
    )
}

/// The nodes have, one by one, the structure that the schemas describe, and
/// none has been started.
pub open spec fn all_built<A: AsyncActionName>(
    nodes: Seq<AsyncChildView<A>>,
    behaviors: Seq<Behavior<A>>,
) -> bool {
    &&& nodes.len() == behaviors.len()
    &&& forall|j: int| 0 <= j < behaviors.len() ==> nodes[j].realizes(#[trigger] behaviors[j])
    &&& forall|j: int| 0 <= j < nodes.len() ==> (#[trigger] nodes[j]).untouched()
    &&& forall|j: int| 0 <= j < nodes.len() ==> (#[trigger] nodes[j]).wf()
}

/// The evaluator of a cooperatively run node, one variant per node kind.
///
/// The host runs a node by the kind it finds here: it has the runner carry
/// out a leaf, and for a control node runs the child that the node names and
/// tells the node how that child ended.
pub enum AsyncNode<A> {
    Action(AsyncActionState<A>),
    Wait(AsyncWaitState),
    Invert(AsyncInvertState<A>),
    Sequence(AsyncSequenceState<A>),
    Select(AsyncSelectState<A>),
    Loop(AsyncLoopState<A>),
    WhileAll(AsyncWhileAll<A>),
}

impl<A> AsyncNode<A> {
    pub open spec fn view(&self) -> AsyncNodeView<A>
        decreases self,
    {
        match self {
            AsyncNode::Action(action) => AsyncNodeView::Action(action.payload()),
            AsyncNode::Wait(wait) => AsyncNodeView::Wait(wait.goal()),
            AsyncNode::Invert(invert) => AsyncNodeView::Invert(invert@),
            AsyncNode::Sequence(sequence) => AsyncNodeView::Sequence(sequence@),
            AsyncNode::Select(select) => AsyncNodeView::Select(select@),
            AsyncNode::Loop(repeat) => AsyncNodeView::Loop(repeat@),
            AsyncNode::WhileAll(guarded) => AsyncNodeView::WhileAll(guarded@),
        }
    }

    /// Resets the evaluator, handing the reset of every leaf action that it
    /// reaches on to the runner.
    pub fn reset<R>(&mut self, runner: &mut R) where R: AsyncActionRunner<A>
        ensures
            final(self)@ == old(self)@.reset(),
            old(self)@.wf() ==> final(self)@.wf() && final(self)@.untouched(),
            old(self)@.resets(*old(runner), *final(runner)),
        decreases *old(self),
    {
        proof {
            if old(self)@.wf() {
                lemma_reset_is_untouched(
                    AsyncChildView { name: Seq::empty(), status: None, node: old(self)@ },
                );
            }
        }
        match self {
            AsyncNode::Action(action) => action.reset(runner),
            AsyncNode::Wait(_) => {},
            AsyncNode::Invert(invert) => invert.reset(runner),
            AsyncNode::Sequence(sequence) => sequence.reset(runner),
            AsyncNode::Select(select) => select.reset(runner),
            AsyncNode::Loop(repeat) => repeat.reset(runner),
            AsyncNode::WhileAll(guarded) => guarded.reset(runner),
        }
    }

    /// The display name: that of the node kind, or the one a leaf action
    /// gives itself.
    pub fn name(&self) -> (name: &'static str) where A: AsyncActionName
        ensures
            self@.kind_name() matches Some(kind) ==> name@ == kind,
            self@ matches AsyncNodeView::Action(action) ==> action_shows(action, name@),
    {
        match self {
            AsyncNode::Action(action) => action.name(),
            AsyncNode::Wait(wait) => wait.name(),
            AsyncNode::Invert(invert) => invert.name(),
            AsyncNode::Sequence(sequence) => sequence.name(),
            AsyncNode::Select(select) => select.name(),
            AsyncNode::Loop(repeat) => repeat.name(),
            AsyncNode::WhileAll(guarded) => guarded.name(),
        }
    }
}

/// A node of a cooperatively run tree: an evaluator, its display name and
/// the status it shows to observers.
pub struct AsyncChild<A> {
    action_type: AsyncNode<A>,
    name: &'static str,
    status: Option<Status>,
}

impl<A> AsyncChild<A> {
    pub closed spec fn view(&self) -> AsyncChildView<A>
        decreases self,
    {
        AsyncChildView { name: self.name@, status: self.status, node: self.action_type@ }
    }

    /// A node around an evaluator, with an empty status cell.
    pub fn new(action_type: AsyncNode<A>) -> (child: Self) where A: AsyncActionName
        requires
            action_type@.wf(),
            action_type@.untouched(),
        ensures
            child@.wf(),
            child@.untouched(),
            child@.status is None,
            child@.node == action_type@,
            child@.node.kind_name() matches Some(kind) ==> child@.name == kind,
            child@.node matches AsyncNodeView::Action(action) ==> action_shows(action, child@.name),
    {
        let name = action_type.name();
        Self { action_type, name, status: None }
    }

    /// Builds the node that a schema describes, and below it the nodes of
    /// every behavior in the schema. Every leaf holds the payload of its
    /// action. No node of the result has been started.
    ///
    /// The schema has to be well formed: a sequence or select without
    /// children and a guarded loop without conditions cannot be built.
    pub fn from_behavior(behavior: Behavior<A>) -> (child: Self) where A: AsyncActionName
        requires
            behavior.well_formed(),
        ensures
            child@.realizes(behavior),
            child@.untouched(),
            child@.wf(),
        decreases behavior,
    {
        match behavior {
            Behavior::Action(action) => AsyncChild::new(
                AsyncNode::Action(AsyncActionState::new(action)),
            ),
            Behavior::Wait(target) => AsyncChild::new(AsyncNode::Wait(AsyncWaitState::new(target))),
            Behavior::Invert(child) => {
                let child = Self::from_behavior(*child);
                AsyncChild::new(AsyncNode::Invert(AsyncInvertState::new(child)))
            },
            Behavior::Sequence(children) => {
                let children = Self::from_behaviors(children);
                AsyncChild::new(AsyncNode::Sequence(AsyncSequenceState::new(children)))
            },
            Behavior::Select(children) => {
                let children = Self::from_behaviors(children);
                AsyncChild::new(AsyncNode::Select(AsyncSelectState::new(children)))
            },
            Behavior::Loop(child) => {
                let child = Self::from_behavior(*child);
                AsyncChild::new(AsyncNode::Loop(AsyncLoopState::new(child)))
            },
            Behavior::WhileAll(conditions, child) => {
                let conditions = Self::from_behaviors(conditions);
                let child = Self::from_behavior(*child);
                AsyncChild::new(AsyncNode::WhileAll(AsyncWhileAll::new(conditions, child)))
            },
        }
    }

    /// Builds the nodes that the schemas describe, in the same order.
    fn from_behaviors(behaviors: Vec<Behavior<A>>) -> (children: Vec<Self>) where
        A: AsyncActionName,

        requires
            forall|j: int| 0 <= j < behaviors.len() ==> (#[trigger] behaviors[j]).well_formed(),
        ensures
            all_built(async_views(children@), behaviors@),
            forall|j: int| 0 <= j < children.len() ==> (#[trigger] children[j])@.wf(),
            forall|j: int| 0 <= j < children.len() ==> (#[trigger] children[j])@.untouched(),
        decreases behaviors,
    {
        let mut children: Vec<Self> = Vec::new();
        let ghost all = behaviors@;
        for behavior in iter: behaviors
            invariant
                iter.seq() == all,
                all == behaviors@,
                forall|j: int| 0 <= j < all.len() ==> (#[trigger] all[j]).well_formed(),
                children.len() == iter.index(),
                forall|j: int| 0 <= j < children.len() ==> children[j]@.realizes(#[trigger] all[j]),
                forall|j: int| 0 <= j < children.len() ==> (#[trigger] children[j])@.untouched(),
                forall|j: int| 0 <= j < children.len() ==> (#[trigger] children[j])@.wf(),
        {
            let child = Self::from_behavior(behavior);
            children.push(child);
        }
        children
    }

    /// Builds the node that a schema describes, by the rules of
    /// `from_behavior`, and returns it with what an observer sees of it.
    pub fn from_behavior_with_state(behavior: Behavior<A>) -> (built: (Self, State)) where
        A: AsyncActionName,

        requires
            behavior.well_formed(),
        ensures
            built.0@.realizes(behavior),
            built.0@.untouched(),
            built.0@.wf(),
            built.1.mirrors_async(built.0@),
    {
        let child = Self::from_behavior(behavior);
        let state = child.state();
        (child, state)
    }

    /// Marks the node as running and hands out its evaluator, for the host
    /// to run.
    ///
    /// A node whose status is terminal has to be reset before it is started
    /// again.
    pub fn start(&mut self) -> (node: &mut AsyncNode<A>)
        requires
            !settled(old(self)@.status),
        ensures
            node@ == old(self)@.node,
            final(self)@.name == old(self)@.name,
            final(self)@.status == Some(Status::Running),
            final(self)@.node == final(node)@,
            final(node)@.wf() ==> final(self)@.wf(),
    {
        self.status = Some(Status::Running);
        &mut self.action_type
    }

    /// Records how the run of the node ended, `Success` for `true` and
    /// `Failure` for `false`, and returns the outcome.
    pub fn finish(&mut self, success: bool) -> (outcome: bool)
        requires
            old(self)@.status == Some(Status::Running),
        ensures
            outcome == success,
            final(self)@.name == old(self)@.name,
            final(self)@.status == Some(Status::of_outcome(success)),
            final(self)@.node == old(self)@.node,
            old(self)@.wf() ==> final(self)@.wf(),
    {
        self.status = Some(Status::from_outcome(success));
        success
    }

    /// Empties the status cell and resets the evaluator, handing the reset
    /// of every leaf action that it reaches on to the runner.
    pub fn reset<R>(&mut self, runner: &mut R) where R: AsyncActionRunner<A>
        ensures
            final(self)@ == old(self)@.reset(),
            old(self)@.wf() ==> final(self)@.wf() && final(self)@.untouched(),
            old(self)@.resets(*old(runner), *final(runner)),
        decreases *old(self),
    {
        proof {
            if old(self)@.wf() {
                lemma_reset_is_untouched(old(self)@);
            }
        }
        self.status = None;
        self.action_type.reset(runner);
    }

    /// Cancels the node: resets it if it shows `Running`, so that no node
    /// whose run was abandoned is left showing `Running`.
    pub fn cancel<R>(&mut self, runner: &mut R) where R: AsyncActionRunner<A>
        ensures
            final(self)@ == old(self)@.cancelled(),
            old(self)@.cancels(*old(runner), *final(runner)),
            final(self)@.status != Some(Status::Running),
            old(self)@.wf() ==> final(self)@.wf(),
    {
        match self.status {
            Some(Status::Running) => self.reset(runner),
            _ => {},
        }
    }

    /// What an observer sees of the node and of everything below it.
    pub fn state(&self) -> (state: State)
        ensures
            state.mirrors_async(self@),
        decreases self,
    {
        match &self.action_type {
            AsyncNode::Action(_) => State::NoChild(self.name, self.status),
            AsyncNode::Wait(_) => State::NoChild(self.name, self.status),
            AsyncNode::Invert(invert) => State::SingleChild(
                self.name,
                self.status,
                Box::new(invert.child_state()),
            ),
            AsyncNode::Sequence(sequence) => State::MultipleChildren(
                self.name,
                self.status,
                sequence.children_states(),
            ),
            AsyncNode::Select(select) => State::MultipleChildren(
                self.name,
                self.status,
                select.children_states(),
            ),
            AsyncNode::Loop(repeat) => State::SingleChild(
                self.name,
                self.status,
                Box::new(repeat.child_state()),
            ),
            AsyncNode::WhileAll(guarded) => State::MultipleChildren(
                self.name,
                self.status,
                guarded.children_states(),
            ),
        }
    }

    /// The status that the node shows.
    pub fn status(&self) -> (status: Option<Status>)
        ensures
            status == self@.status,
    {
        self.status
    }

    /// The display name.
    pub fn name(&self) -> (name: &'static str)
        ensures
            name@ == self@.name,
    {
        self.name
    }
}

} // verus!
