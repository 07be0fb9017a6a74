use vstd::prelude::*;
use crate::action_type::ActionType;
use crate::behavior::Behavior;
use crate::behavior_nodes::composite::{views, CompositeView};
use crate::behavior_nodes::invert_node::{InvertState, InvertView};
use crate::behavior_nodes::loop_node::{LoopState, LoopView};
use crate::behavior_nodes::select_node::SelectState;
use crate::behavior_nodes::sequence_node::SequenceState;
use crate::behavior_nodes::wait_node::{WaitState, WaitView};
use crate::behavior_nodes::while_all_node::{WhileAllState, WhileAllView};
use crate::state::State;
use crate::status::{settled, Status};

verus! {

/// The evaluator of a node as contracts see it, one variant per node kind.
/// A leaf action stands for itself: the engine knows nothing of its state.
#[verifier::reject_recursive_types(S)]
pub enum NodeView<S> {
    Action(ActionType<S>),
    Wait(WaitView),
    Invert(InvertView<S>),
    Sequence(CompositeView<S>),
    Select(CompositeView<S>),
    Loop(LoopView<S>),
    WhileAll(WhileAllView<S>),
}

/// A node of a running tree as contracts see it.
#[verifier::reject_recursive_types(S)]
pub struct ChildView<S> {
    /// The display name.
    pub name: Seq<char>,
    /// The status that the node has last reported. `None` for a node that has
    /// not been advanced since it was built or last reset.
    pub status: Option<Status>,
    /// The evaluator.
    pub node: NodeView<S>,
}

impl<S> NodeView<S> {
    /// The invariant of the evaluator.
    pub open spec fn wf(self) -> bool
        decreases self,
    {
        match self {
            NodeView::Action(_) => true,
            NodeView::Wait(wait) => wait.wf(),
            NodeView::Invert(invert) => invert.wf(),
            NodeView::Sequence(sequence) => sequence.wf(Status::Success),
            NodeView::Select(select) => select.wf(Status::Failure),
            NodeView::Loop(repeat) => repeat.wf(),
            NodeView::WhileAll(guarded) => guarded.wf(),
        }
    }

    /// The evaluator is in the state in which it is built.
    pub open spec fn pristine(self) -> bool {
        match self {
            NodeView::Action(_) => true,
            NodeView::Wait(wait) => wait.pristine(),
            NodeView::Invert(invert) => invert.pristine(),
            NodeView::Sequence(sequence) => sequence.pristine(),
            NodeView::Select(select) => select.pristine(),
            NodeView::Loop(repeat) => repeat.pristine(),
            NodeView::WhileAll(guarded) => guarded.pristine(),
        }
    }

    /// Whether a status cell can belong to an evaluator in this state.
    pub open spec fn agrees(self, cell: Option<Status>) -> bool {
        match self {
            NodeView::Action(action) => action is Immediate ==> cell != Some(Status::Running),
            NodeView::Wait(wait) => wait.agrees(cell),
            NodeView::Invert(invert) => cell == invert.report(),
            NodeView::Sequence(sequence) => cell == sequence.report(Status::Success),
            NodeView::Select(select) => cell == select.report(Status::Failure),
            NodeView::Loop(_) => !settled(cell),
            NodeView::WhileAll(guarded) => guarded.agrees(cell),
        }
    }

    /// The display name of a control node or a wait leaf. A leaf action names
    /// itself.
    pub open spec fn kind_name(self) -> Option<Seq<char>> {
        match self {
            NodeView::Action(_) => None,
            NodeView::Wait(_) => Some("Wait"@),
            NodeView::Invert(_) => Some("Invert"@),
            NodeView::Sequence(_) => Some("Sequence"@),
            NodeView::Select(_) => Some("Select"@),
            NodeView::Loop(_) => Some("Loop"@),
            NodeView::WhileAll(_) => Some("WhileAll"@),
        }
    }

    /// Whether the evaluator has finished and has to be reset before it is
    /// ticked again. A leaf action keeps no such record of its own.
    pub open spec fn completed(self) -> bool {
        match self {
            NodeView::Action(_) => false,
            NodeView::Wait(wait) => wait.completed,
            NodeView::Invert(invert) => invert.completed,
            NodeView::Sequence(sequence) => sequence.completed,
            NodeView::Select(select) => select.completed,
            NodeView::Loop(_) => false,
            NodeView::WhileAll(guarded) => guarded.failed is Some,
        }
    }

    /// One tick leads from `self` to `next` and reports `status`.
    pub open spec fn ticked(self, delta: u64, next: Self, status: Status) -> bool
        decreases self, 1nat,
    {
        match self {
            NodeView::Action(action) => next matches NodeView::Action(after) && action.ticked(
                after,
                status,
            ),
            NodeView::Wait(wait) => next matches NodeView::Wait(after) && wait.ticked(
                delta,
                after,
                status,
            ),
            NodeView::Invert(invert) => next matches NodeView::Invert(after) && invert.ticked(
                delta,
                after,
                status,
            ),
            NodeView::Sequence(sequence) => next matches NodeView::Sequence(after)
                && sequence.ticked(Status::Success, delta, after, status),
            NodeView::Select(select) => next matches NodeView::Select(after) && select.ticked(
                Status::Failure,
                delta,
                after,
                status,
            ),
            NodeView::Loop(repeat) => next matches NodeView::Loop(after) && repeat.ticked(
                delta,
                after,
                status,
            ),
            NodeView::WhileAll(guarded) => next matches NodeView::WhileAll(after)
                && guarded.ticked(delta, after, status),
        }
    }

    /// A reset leads from `self` to `next`.
    pub open spec fn reset_to(self, next: Self) -> bool
        decreases self,
    {
        match self {
            NodeView::Action(action) => next matches NodeView::Action(after) && action.reset_to(
                after,
            ),
            NodeView::Wait(wait) => next matches NodeView::Wait(after) && wait.reset_to(after),
            NodeView::Invert(invert) => next matches NodeView::Invert(after) && invert.reset_to(
                after,
            ),
            NodeView::Sequence(sequence) => next matches NodeView::Sequence(after)
                && sequence.reset_to(after),
            NodeView::Select(select) => next matches NodeView::Select(after) && select.reset_to(
                after,
            ),
            NodeView::Loop(repeat) => next matches NodeView::Loop(after) && repeat.reset_to(after),
            NodeView::WhileAll(guarded) => next matches NodeView::WhileAll(after)
                && guarded.reset_to(after),
        }
    }
}

impl<S> ChildView<S> {
    /// The invariant of a node: that of its evaluator, a status cell that fits
    /// the evaluator's state, an evaluator in its built state whenever the
    /// cell is empty, and the display name of its kind.
    pub open spec fn wf(self) -> bool
        decreases self,
    {
        &&& self.node.wf()
        &&& self.node.agrees(self.status)
        &&& self.status is None ==> self.node.pristine()
        &&& self.node.kind_name() matches Some(name) ==> self.name == name
    }

    /// Nothing in the node or below it has been advanced since it was built
    /// or last reset: every status cell is empty, every cursor on the first
    /// child, every flag cleared and every wait at 0.
    pub open spec fn untouched(self) -> bool
        decreases self,
    {
        &&& self.status is None
        &&& match self.node {
            NodeView::Action(_) => true,
            NodeView::Wait(wait) => wait.pristine(),
            NodeView::Invert(invert) => !invert.completed && invert.child.untouched(),
            NodeView::Sequence(sequence) => {
                &&& sequence.index == 0
                &&& !sequence.completed
                &&& forall|j: int|
                    0 <= j < sequence.children.len() ==> (
                    #[trigger] sequence.children[j]).untouched()
            },
            NodeView::Select(select) => {
                &&& select.index == 0
                &&& !select.completed
                &&& forall|j: int|
                    0 <= j < select.children.len() ==> (#[trigger] select.children[j]).untouched()
            },
            NodeView::Loop(repeat) => repeat.child.untouched(),
            NodeView::WhileAll(guarded) => {
                &&& guarded.failed is None
                &&& forall|g: int|
                    0 <= g < guarded.guards.len() ==> (#[trigger] guarded.guards[g]).untouched()
                &&& guarded.child.untouched()
            },
        }
    }

    /// The node has the structure that the schema describes: the same kind
    /// at every place, children in the same number and order, and the wait
    /// targets of the schema.
    pub open spec fn realizes<A>(self, behavior: Behavior<A>) -> bool
        decreases behavior,
    {
        match behavior {
            Behavior::Action(_) => self.node is Action,
            Behavior::Wait(target) => self.node matches NodeView::Wait(wait) && wait.target
                == target,
            Behavior::Invert(child) => self.node matches NodeView::Invert(invert)
                && invert.child.realizes(*child),
            Behavior::Sequence(children) => {
                &&& self.node matches NodeView::Sequence(sequence)
                &&& sequence.children.len() == children.len()
                &&& forall|j: int|
                    0 <= j < children.len() ==> sequence.children[j].realizes(
                        #[trigger] children[j],
                    )
            },
            Behavior::Select(children) => {
                &&& self.node matches NodeView::Select(select)
                &&& select.children.len() == children.len()
                &&& forall|j: int|
                    0 <= j < children.len() ==> select.children[j].realizes(#[trigger] children[j])
            },
            Behavior::Loop(child) => self.node matches NodeView::Loop(repeat)
                && repeat.child.realizes(*child),
            Behavior::WhileAll(conditions, child) => {
                &&& self.node matches NodeView::WhileAll(guarded)
                &&& guarded.guards.len() == conditions.len()
                &&& forall|j: int|
                    0 <= j < conditions.len() ==> guarded.guards[j].realizes(
                        #[trigger] conditions[j],
                    )
                &&& guarded.child.realizes(*child)
            },
        }
    }

    /// The node is what is built from the schema: it has the structure of
    /// the schema, every leaf holds the action into which the payload at its
    /// place was converted, and shows the name that this action gave itself
    /// when the leaf was built.
    pub open spec fn built_from<A: Into<ActionType<S>>>(self, behavior: Behavior<A>) -> bool
        decreases behavior,
    {
        match behavior {
            Behavior::Action(payload) => {
                &&& self.node matches NodeView::Action(action)
                &&& call_ensures(A::into, (payload,), action)
                &&& action.named(self.name)
            },
            Behavior::Wait(target) => self.node matches NodeView::Wait(wait) && wait.target
                == target,
            Behavior::Invert(child) => self.node matches NodeView::Invert(invert)
                && invert.child.built_from(*child),
            Behavior::Sequence(children) => {
                &&& self.node matches NodeView::Sequence(sequence)
                &&& sequence.children.len() == children.len()
                &&& forall|j: int|
                    0 <= j < children.len() ==> sequence.children[j].built_from(
                        #[trigger] children[j],
                    )
            },
            Behavior::Select(children) => {
                &&& self.node matches NodeView::Select(select)
                &&& select.children.len() == children.len()
                &&& forall|j: int|
                    0 <= j < children.len() ==> select.children[j].built_from(
                        #[trigger] children[j],
                    )
            },
            Behavior::Loop(child) => self.node matches NodeView::Loop(repeat)
                && repeat.child.built_from(*child),
            Behavior::WhileAll(conditions, child) => {
                &&& self.node matches NodeView::WhileAll(guarded)
                &&& guarded.guards.len() == conditions.len()
                &&& forall|j: int|
                    0 <= j < conditions.len() ==> guarded.guards[j].built_from(
                        #[trigger] conditions[j],
                    )
                &&& guarded.child.built_from(*child)
            },
        }
    }

    /// One tick leads from `self` to `next`: the evaluator makes one tick, and
    /// what it reports is written to the status cell.
    pub open spec fn ticked(self, delta: u64, next: Self) -> bool
        decreases self, 2nat,
    {
        &&& next.name == self.name
        &&& next.status matches Some(status)
        &&& self.node.ticked(delta, next.node, status)
    }

    /// A reset leads from `self` to `next`: the status cell is emptied and the
    /// evaluator reset.
    pub open spec fn reset_to(self, next: Self) -> bool
        decreases self,
    {
        &&& next.name == self.name
        &&& next.status is None
        &&& self.node.reset_to(next.node)
    }

    /// One tick in which the node reported `status`, followed at once by a
    /// reset, leads from `self` to `next`.
    pub open spec fn ticked_and_reset(self, delta: u64, next: Self, status: Status) -> bool
        decreases self, 3nat,
    {
        exists|mid: Self|
            self.ticked(delta, mid) && mid.status == Some(status) && #[trigger] mid.reset_to(next)
    }

    /// One tick leads from `self` to `next`, where a node that finished in
    /// that tick was reset at once, so that it starts again on the next tick.
    pub open spec fn ticked_restarting(self, delta: u64, next: Self) -> bool
        decreases self, 4nat,
    {
        ||| self.ticked(delta, next) && next.status == Some(Status::Running)
        ||| self.ticked_and_reset(delta, next, Status::Success)
        ||| self.ticked_and_reset(delta, next, Status::Failure)
    }

    /// Cancelling leads from `self` to `next`: a node that is running is
    /// reset, any other node is left exactly as it was.
    pub open spec fn cancelled(self, next: Self) -> bool {
        if self.status == Some(Status::Running) {
            self.reset_to(next)
        } else {
            next == self
        }
    }

    /// One tick of a guarded loop leads from `self` to `next`, where `self`
    /// is the guard at position `position` and `failed` the position of the
    /// guard that failed in this tick, if one did.
    ///
    /// Without a failure every guard is ticked once, and a guard that
    /// succeeded is reset at once. With a failure, the guards before the
    /// failing one were ticked and have then been reset, either for their
    /// success or to cancel them; the failing guard was ticked and keeps its
    /// `Failure`; the guards after it were not ticked, only cancelled.
    pub open spec fn ticked_as_guard(
        self,
        delta: u64,
        next: Self,
        position: int,
        failed: Option<nat>,
    ) -> bool
        decreases self, 5nat,
    {
        match failed {
            None => {
                ||| self.ticked(delta, next) && next.status == Some(Status::Running)
                ||| self.ticked_and_reset(delta, next, Status::Success)
            },
            Some(failing) => {
                if position < failing {
                    ||| self.ticked_and_reset(delta, next, Status::Success)
                    ||| self.ticked_and_reset(delta, next, Status::Running)
                } else if position == failing {
                    self.ticked(delta, next) && next.status == Some(Status::Failure)
                } else {
                    self.cancelled(next)
                }
            },
        }
    }
}

/// A well-formed node whose status cell is empty is untouched, and so is
/// everything below it.
pub proof fn lemma_idle_is_untouched<S>(node: ChildView<S>)
    requires
        node.wf(),
        node.status is None,
    ensures
        node.untouched(),
    decreases node,
{
    match node.node {
        NodeView::Action(_) => {},
        NodeView::Wait(_) => {},
        NodeView::Invert(invert) => {
            lemma_idle_is_untouched(*invert.child);
        },
        NodeView::Sequence(sequence) => {
            assert forall|j: int| 0 <= j < sequence.children.len() implies (
            #[trigger] sequence.children[j]).untouched() by {
                lemma_idle_is_untouched(sequence.children[j]);
            }
        },
        NodeView::Select(select) => {
            assert forall|j: int| 0 <= j < select.children.len() implies (
            #[trigger] select.children[j]).untouched() by {
                lemma_idle_is_untouched(select.children[j]);
            }
        },
        NodeView::Loop(repeat) => {
            lemma_idle_is_untouched(*repeat.child);
        },
        NodeView::WhileAll(guarded) => {
            assert forall|g: int| 0 <= g < guarded.guards.len() implies (
            #[trigger] guarded.guards[g]).untouched() by {
                lemma_idle_is_untouched(guarded.guards[g]);
            }
            lemma_idle_is_untouched(*guarded.child);
        },
    }
}

/// The nodes have, one by one, the structure that the schemas describe.
pub open spec fn all_realize<S, A>(nodes: Seq<ChildView<S>>, behaviors: Seq<Behavior<A>>) -> bool {
    &&& nodes.len() == behaviors.len()
    &&& forall|j: int|
        0 <= j < behaviors.len() ==> nodes[j].realizes(#[trigger] behaviors[j])
}

/// The nodes are, one by one, what is built from the schemas.
pub open spec fn all_built_from<S, A: Into<ActionType<S>>>(
    nodes: Seq<ChildView<S>>,
    behaviors: Seq<Behavior<A>>,
) -> bool {
    &&& nodes.len() == behaviors.len()
    &&& forall|j: int|
        0 <= j < behaviors.len() ==> nodes[j].built_from(#[trigger] behaviors[j])
}

/// The evaluator of a node, one variant per node kind.
#[verifier::reject_recursive_types(S)]
pub enum Node<S> {
    Action(ActionType<S>),
    Wait(WaitState),
    Invert(InvertState<S>),
    Sequence(SequenceState<S>),
    Select(SelectState<S>),
    Loop(LoopState<S>),
    WhileAll(WhileAllState<S>),
}

impl<S> Node<S> {
    pub open spec fn view(&self) -> NodeView<S>
        decreases self,
    {
        match self {
            Node::Action(action) => NodeView::Action(*action),
            Node::Wait(wait) => NodeView::Wait(wait@),
            Node::Invert(invert) => NodeView::Invert(invert@),
            Node::Sequence(sequence) => NodeView::Sequence(sequence@),
            Node::Select(select) => NodeView::Select(select@),
            Node::Loop(repeat) => NodeView::Loop(repeat@),
            Node::WhileAll(guarded) => NodeView::WhileAll(guarded@),
        }
    }

    /// Ticks the evaluator once.
    pub fn tick(&mut self, delta: u64, shared: &mut S) -> (status: Status)
        requires
            old(self)@.wf(),
            !old(self)@.completed(),
        ensures
            final(self)@.wf(),
            old(self)@.ticked(delta, final(self)@, status),
            old(self)@.ticked_with(delta, *old(shared), final(self)@, *final(shared), status),
        decreases *old(self),
    {
        match self {
            Node::Action(action) => action.tick(delta, shared),
            Node::Wait(wait) => wait.tick(delta, shared),
            Node::Invert(invert) => invert.tick(delta, shared),
            Node::Sequence(sequence) => sequence.tick(delta, shared),
            Node::Select(select) => select.tick(delta, shared),
            Node::Loop(repeat) => repeat.tick(delta, shared),
            Node::WhileAll(guarded) => guarded.tick(delta, shared),
        }
    }

    /// Resets the evaluator.
    pub fn reset(&mut self, shared: &mut S)
        requires
            old(self)@.wf(),
        ensures
            final(self)@.wf(),
            final(self)@.pristine(),
            old(self)@.reset_to(final(self)@),
            old(self)@.reset_with(*old(shared), final(self)@, *final(shared)),
        decreases *old(self),
    {
        match self {
            Node::Action(action) => action.reset(shared),
            Node::Wait(wait) => wait.reset(shared),
            Node::Invert(invert) => invert.reset(shared),
            Node::Sequence(sequence) => sequence.reset(shared),
            Node::Select(select) => select.reset(shared),
            Node::Loop(repeat) => repeat.reset(shared),
            Node::WhileAll(guarded) => guarded.reset(shared),
        }
    }

    /// The display name: that of the node kind, or the one a leaf action
    /// gives itself.
    pub fn name(&self) -> (name: &'static str)
        ensures
            self@.kind_name() matches Some(kind) ==> name@ == kind,
            self@ matches NodeView::Action(action) ==> action.named(name@),
    {
        match self {
            Node::Action(action) => action.name(),
            Node::Wait(wait) => wait.name(),
            Node::Invert(invert) => invert.name(),
            Node::Sequence(sequence) => sequence.name(),
            Node::Select(select) => select.name(),
            Node::Loop(repeat) => repeat.name(),
            Node::WhileAll(guarded) => guarded.name(),
        }
    }
}

/// A node of a running tree: an evaluator, its display name and the status
/// it has last reported.
#[verifier::reject_recursive_types(S)]
pub struct Child<S> {
    action: Node<S>,
    name: &'static str,
    status: Option<Status>,
}

impl<S> Child<S> {
    pub closed spec fn view(&self) -> ChildView<S>
        decreases self,
    {
        ChildView { name: self.name@, status: self.status, node: self.action@ }
    }

    /// A node around an evaluator that has not been advanced.
    pub fn new(action: Node<S>) -> (child: Self)
        requires
            action@.wf(),
            action@.pristine(),
        ensures
            child@.wf(),
            child@.status is None,
            child@.node == action@,
            action@ matches NodeView::Action(leaf) ==> leaf.named(child@.name),
    {
        let name = action.name();
        Self { action, name, status: None }
    }

    /// Builds the node that a schema describes, and below it the nodes of
    /// every behavior in the schema. No node of the result has been advanced.
    ///
    /// The schema has to be well formed: a sequence or select without
    /// children and a guarded loop without conditions cannot be built.
    pub fn from_behavior<A>(behavior: Behavior<A>) -> (child: Self) where A: Into<ActionType<S>>
        requires
            behavior.well_formed(),
        ensures
            child@.wf(),
            child@.status is None,
            child@.realizes(behavior),
            child@.built_from(behavior),
        decreases behavior,
    {
        match behavior {
            Behavior::Action(action) => Child::new(Node::Action(action.into())),
            Behavior::Wait(target) => Child::new(Node::Wait(WaitState::new(target))),
            Behavior::Invert(child) => {
                let child = Self::from_behavior(*child);
                Child::new(Node::Invert(InvertState::new(child)))
            },
            Behavior::Sequence(children) => {
                let children = Self::from_behaviors(children);
                Child::new(Node::Sequence(SequenceState::new(children)))
            },
            Behavior::Select(children) => {
                let children = Self::from_behaviors(children);
                Child::new(Node::Select(SelectState::new(children)))
            },
            Behavior::Loop(child) => {
                let child = Self::from_behavior(*child);
                Child::new(Node::Loop(LoopState::new(child)))
            },
            Behavior::WhileAll(conditions, child) => {
                let conditions = Self::from_behaviors(conditions);
                let child = Self::from_behavior(*child);
                Child::new(Node::WhileAll(WhileAllState::new(conditions, child)))
            },
        }
    }

    /// Builds the nodes that the schemas describe, in the same order.
    fn from_behaviors<A>(behaviors: Vec<Behavior<A>>) -> (children: Vec<Self>) where
        A: Into<ActionType<S>>,

        requires
            forall|j: int| 0 <= j < behaviors.len() ==> (#[trigger] behaviors[j]).well_formed(),
        ensures
            children.len() == behaviors.len(),
            forall|j: int| 0 <= j < children.len() ==> (#[trigger] children[j])@.wf(),
            forall|j: int| 0 <= j < children.len() ==> (#[trigger] children[j])@.status is None,
            all_realize(views(children@), behaviors@),
            all_built_from(views(children@), behaviors@),
        decreases behaviors,
    {
        let mut children: Vec<Self> = Vec::new();
        let ghost all = behaviors@;
        for behavior in iter: behaviors
            invariant
                iter.seq() == all,
                all == behaviors@,
                forall|j: int| 0 <= j < all.len() ==> (#[trigger] all[j]).well_formed(),
                children.len() == iter.index(),
                forall|j: int| 0 <= j < children.len() ==> (#[trigger] children[j])@.wf(),
                forall|j: int| 0 <= j < children.len() ==> (#[trigger] children[j])@.status is None,
                forall|j: int| 0 <= j < children.len() ==> children[j]@.realizes(#[trigger] all[j]),
                forall|j: int|
                    0 <= j < children.len() ==> children[j]@.built_from(#[trigger] all[j]),
        {
            let child = Self::from_behavior(behavior);
            children.push(child);
        }
        children
    }

    /// Ticks the node once, records the status it reports and returns it.
    ///
    /// A node whose status is terminal has to be reset before it is ticked
    /// again.
    pub fn tick(&mut self, delta: u64, shared: &mut S) -> (status: Status)
        requires
            old(self)@.wf(),
            !settled(old(self)@.status),
        ensures
            final(self)@.wf(),
            old(self)@.ticked(delta, final(self)@),
            old(self)@.ticked_with(delta, *old(shared), final(self)@, *final(shared)),
            final(self)@.status == Some(status),
        decreases *old(self),
    {
        let status = self.action.tick(delta, shared);
        self.status = Some(status);
        status
    }

    /// Empties the status cell and resets the evaluator, so that the node is
    /// as it was built.
    pub fn reset(&mut self, shared: &mut S)
        requires
            old(self)@.wf(),
        ensures
            final(self)@.wf(),
            old(self)@.reset_to(final(self)@),
            old(self)@.reset_with(*old(shared), final(self)@, *final(shared)),
        decreases *old(self),
    {
        self.status = None;
        self.action.reset(shared);
    }

    /// Builds the node that a schema describes, by the rules of
    /// `from_behavior`, and returns it with what an observer sees of it.
    pub fn from_behavior_with_state<A>(behavior: Behavior<A>) -> (built: (Self, State)) where
        A: Into<ActionType<S>>,

        requires
            behavior.well_formed(),
        ensures
            built.0@.wf(),
            built.0@.status is None,
            built.0@.realizes(behavior),
            built.0@.built_from(behavior),
            built.1.mirrors(built.0@),
    {
        let child = Self::from_behavior(behavior);
        let state = child.state();
        (child, state)
    }

    /// What an observer sees of the node and of everything below it.
    pub fn state(&self) -> (state: State)
        ensures
            state.mirrors(self@),
        decreases self,
    {
        match &self.action {
            Node::Action(_) => State::NoChild(self.name, self.status),
            Node::Wait(_) => State::NoChild(self.name, self.status),
            Node::Invert(invert) => State::SingleChild(
                self.name,
                self.status,
                Box::new(invert.child_state()),
            ),
            Node::Sequence(sequence) => State::MultipleChildren(
                self.name,
                self.status,
                sequence.children_states(),
            ),
            Node::Select(select) => State::MultipleChildren(
                self.name,
                self.status,
                select.children_states(),
            ),
            Node::Loop(repeat) => State::SingleChild(
                self.name,
                self.status,
                Box::new(repeat.child_state()),
            ),
            Node::WhileAll(guarded) => State::MultipleChildren(
                self.name,
                self.status,
                guarded.children_states(),
            ),
        }
    }

    /// The status that the node has last reported, `None` if it has not been
    /// advanced since it was built or last reset.
    pub fn status(&self) -> (status: Option<Status>)
        ensures
            status == self@.status,
    {
        self.status
    }

    /// The display name.
    pub fn name(&self) -> (name: &'static str)
        ensures
            name@ == self@.name,
    {
        self.name
    }
}

} // verus!
