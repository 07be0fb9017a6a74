use vstd::prelude::*;
use crate::async_child::{AsyncChildView, AsyncNodeView};
use crate::child::{ChildView, NodeView};
use crate::status::Status;

verus! {

/// What an observer sees of a node: its display name, the status it has last
/// reported, and the same for the nodes below it.
///
/// A `State` is a value of its own. It is taken from a tree at one moment and
/// keeps nothing of the tree alive.
#[derive(Debug)]
pub enum State {
    /// A leaf: an action or a wait.
    NoChild(&'static str, Option<Status>),
    /// A decorator and its child.
    SingleChild(&'static str, Option<Status>, Box<State>),
    /// A control node and its children, in order. For a guarded loop these
    /// are the guards followed by the child.
    MultipleChildren(&'static str, Option<Status>, Vec<State>),
}

impl State {
    /// The display name of the node.
    pub open spec fn name(self) -> Seq<char> {
        match self {
            State::NoChild(name, _) => name@,
            State::SingleChild(name, _, _) => name@,
            State::MultipleChildren(name, _, _) => name@,
        }
    }

    /// The status that the node had last reported.
    pub open spec fn status(self) -> Option<Status> {
        match self {
            State::NoChild(_, status) => status,
            State::SingleChild(_, status, _) => status,
            State::MultipleChildren(_, status, _) => status,
        }
    }

    /// The state shows the node and everything below it: the same names and
    /// statuses in the same structure.
    pub open spec fn mirrors<S>(self, node: ChildView<S>) -> bool
        decreases self,
    {
        &&& self.name() == node.name
        &&& self.status() == node.status
        &&& match node.node {
            NodeView::Action(_) => self is NoChild,
            NodeView::Wait(_) => self is NoChild,
            NodeView::Invert(invert) => self matches State::SingleChild(_, _, child)
                && child.mirrors(*invert.child),
            NodeView::Loop(repeat) => self matches State::SingleChild(_, _, child)
                && child.mirrors(*repeat.child),
            NodeView::Sequence(sequence) => {
                &&& self matches State::MultipleChildren(_, _, children)
                &&& children.len() == sequence.children.len()
                &&& forall|j: int|
                    0 <= j < children.len() ==> (#[trigger] children[j]).mirrors(
                        sequence.children[j],
                    )
            },
            NodeView::Select(select) => {
                &&& self matches State::MultipleChildren(_, _, children)
                &&& children.len() == select.children.len()
                &&& forall|j: int|
                    0 <= j < children.len() ==> (#[trigger] children[j]).mirrors(select.children[j])
            },
            NodeView::WhileAll(guarded) => {
                &&& self matches State::MultipleChildren(_, _, children)
                &&& children.len() == guarded.guards.len() + 1
                &&& forall|j: int|
                    0 <= j < children.len() ==> (#[trigger] children[j]).mirrors(
                        guarded.guards.push(*guarded.child)[j],
                    )
            },
        }
    }
}

impl State {
    /// The state shows the cooperatively run node and everything below it:
    /// the same names and statuses in the same structure.
    pub open spec fn mirrors_async<A>(self, node: AsyncChildView<A>) -> bool
        decreases self,
    {
        &&& self.name() == node.name
        &&& self.status() == node.status
        &&& match node.node {
            AsyncNodeView::Action(_) => self is NoChild,
            AsyncNodeView::Wait(_) => self is NoChild,
            AsyncNodeView::Invert(invert) => self matches State::SingleChild(_, _, child)
                && child.mirrors_async(*invert.child),
            AsyncNodeView::Loop(repeat) => self matches State::SingleChild(_, _, child)
                && child.mirrors_async(*repeat.child),
            AsyncNodeView::Sequence(sequence) => {
                &&& self matches State::MultipleChildren(_, _, children)
                &&& children.len() == sequence.children.len()
                &&& forall|j: int|
                    0 <= j < children.len() ==> (#[trigger] children[j]).mirrors_async(
                        sequence.children[j],
                    )
            },
            AsyncNodeView::Select(select) => {
                &&& self matches State::MultipleChildren(_, _, children)
                &&& children.len() == select.children.len()
                &&& forall|j: int|
                    0 <= j < children.len() ==> (#[trigger] children[j]).mirrors_async(
                        select.children[j],
                    )
            },
            AsyncNodeView::WhileAll(guarded) => {
                &&& self matches State::MultipleChildren(_, _, children)
                &&& children.len() == guarded.guards.len() + 1
                &&& forall|j: int|
                    0 <= j < children.len() ==> (#[trigger] children[j]).mirrors_async(
                        guarded.guards.push(*guarded.child)[j],
                    )
            },
        }
    }
}

impl State {
    /// `other` shows what `self` shows: the same names and statuses in the
    /// same structure.
    pub open spec fn same_as(self, other: State) -> bool
        decreases self,
    {
        &&& self.name() == other.name()
        &&& self.status() == other.status()
        &&& match self {
            State::NoChild(_, _) => other is NoChild,
            State::SingleChild(_, _, child) => other matches State::SingleChild(_, _, copy)
                && child.same_as(*copy),
            State::MultipleChildren(_, _, children) => {
                &&& other matches State::MultipleChildren(_, _, copies)
                &&& copies.len() == children.len()
                &&& forall|j: int|
                    0 <= j < children.len() ==> (#[trigger] children[j]).same_as(copies[j])
            },
        }
    }

    /// A copy of the state.
    pub fn duplicate(&self) -> (copy: Self)
        ensures
            self.same_as(copy),
        decreases self,
    {
        match self {
            State::NoChild(name, status) => State::NoChild(*name, *status),
            State::SingleChild(name, status, child) => {
                let child = child.duplicate();
                State::SingleChild(*name, *status, Box::new(child))
            },
            State::MultipleChildren(name, status, children) => {
                let children = Self::duplicate_all(children);
                State::MultipleChildren(*name, *status, children)
            },
        }
    }

    /// Copies of the states, in the same order.
    fn duplicate_all(states: &Vec<State>) -> (copies: Vec<State>)
        ensures
            copies.len() == states.len(),
            forall|j: int| 0 <= j < states.len() ==> (#[trigger] states[j]).same_as(copies[j]),
        decreases states,
    {
        let mut copies: Vec<State> = Vec::new();
        let mut j: usize = 0;
        while j < states.len()
            invariant
                j <= states.len(),
                copies.len() == j,
                forall|k: int| 0 <= k < j ==> (#[trigger] states[k]).same_as(copies[k]),
            decreases states.len() - j,
        {
            let copy = states[j].duplicate();
            copies.push(copy);
            j = j + 1;
        }
        copies
    }
}

impl Clone for State {
    /// A copy that shows the same names and statuses in the same structure.
    fn clone(&self) -> (copy: Self)
        ensures
            self.same_as(copy),
    {
        self.duplicate()
    }
}

impl State {
    /// No node in the state shows a status.
    pub open spec fn shows_nothing(self) -> bool
        decreases self,
    {
        &&& self.status() is None
        &&& match self {
            State::NoChild(_, _) => true,
            State::SingleChild(_, _, child) => child.shows_nothing(),
            State::MultipleChildren(_, _, children) => forall|j: int|
                0 <= j < children.len() ==> (#[trigger] children[j]).shows_nothing(),
        }
    }
}

/// What an observer sees of a node in which nothing has been advanced shows
/// no status, at any place.
pub proof fn law_untouched_node_shows_nothing<S>(state: State, node: ChildView<S>)
    requires
        state.mirrors(node),
        node.untouched(),
    ensures
        state.shows_nothing(),
    decreases state,
{
    match node.node {
        NodeView::Action(_) => {},
        NodeView::Wait(_) => {},
        NodeView::Invert(invert) => {
            law_untouched_node_shows_nothing(*state->SingleChild_2, *invert.child);
        },
        NodeView::Loop(repeat) => {
            law_untouched_node_shows_nothing(*state->SingleChild_2, *repeat.child);
        },
        NodeView::Sequence(sequence) => {
            let children = state->MultipleChildren_2;
            assert forall|j: int| 0 <= j < children.len() implies (
            #[trigger] children[j]).shows_nothing() by {
                law_untouched_node_shows_nothing(children[j], sequence.children[j]);
            }
        },
        NodeView::Select(select) => {
            let children = state->MultipleChildren_2;
            assert forall|j: int| 0 <= j < children.len() implies (
            #[trigger] children[j]).shows_nothing() by {
                law_untouched_node_shows_nothing(children[j], select.children[j]);
            }
        },
        NodeView::WhileAll(guarded) => {
            let children = state->MultipleChildren_2;
            let nodes = guarded.guards.push(*guarded.child);
            assert forall|j: int| 0 <= j < children.len() implies (
            #[trigger] children[j]).shows_nothing() by {
                if j < guarded.guards.len() {
                    assert(nodes[j] == guarded.guards[j]);
                }
                law_untouched_node_shows_nothing(children[j], nodes[j]);
            }
        },
    }
}

/// What an observer sees of a cooperatively run node in which nothing has
/// been started shows no status, at any place. Such is every node after a
/// reset, however far its run had come.
pub proof fn law_untouched_async_node_shows_nothing<A>(state: State, node: AsyncChildView<A>)
    requires
        state.mirrors_async(node),
        node.untouched(),
    ensures
        state.shows_nothing(),
    decreases state,
{
    match node.node {
        AsyncNodeView::Action(_) => {},
        AsyncNodeView::Wait(_) => {},
        AsyncNodeView::Invert(invert) => {
            law_untouched_async_node_shows_nothing(*state->SingleChild_2, *invert.child);
        },
        AsyncNodeView::Loop(repeat) => {
            law_untouched_async_node_shows_nothing(*state->SingleChild_2, *repeat.child);
        },
        AsyncNodeView::Sequence(sequence) => {
            let children = state->MultipleChildren_2;
            assert forall|j: int| 0 <= j < children.len() implies (
            #[trigger] children[j]).shows_nothing() by {
                law_untouched_async_node_shows_nothing(children[j], sequence.children[j]);
            }
        },
        AsyncNodeView::Select(select) => {
            let children = state->MultipleChildren_2;
            assert forall|j: int| 0 <= j < children.len() implies (
            #[trigger] children[j]).shows_nothing() by {
                law_untouched_async_node_shows_nothing(children[j], select.children[j]);
            }
        },
        AsyncNodeView::WhileAll(guarded) => {
            let children = state->MultipleChildren_2;
            let nodes = guarded.guards.push(*guarded.child);
            assert forall|j: int| 0 <= j < children.len() implies (
            #[trigger] children[j]).shows_nothing() by {
                if j < guarded.guards.len() {
                    assert(nodes[j] == guarded.guards[j]);
                }
                law_untouched_async_node_shows_nothing(children[j], nodes[j]);
            }
        },
    }
}

/// The states show the cooperatively run nodes, one by one.
pub open spec fn all_mirror_async<A>(states: Seq<State>, nodes: Seq<AsyncChildView<A>>) -> bool {
    &&& states.len() == nodes.len()
    &&& forall|j: int| 0 <= j < states.len() ==> (#[trigger] states[j]).mirrors_async(nodes[j])
}

/// The states show the nodes, one by one.
pub open spec fn all_mirror<S>(states: Seq<State>, nodes: Seq<ChildView<S>>) -> bool {
    &&& states.len() == nodes.len()
    &&& forall|j: int| 0 <= j < states.len() ==> (#[trigger] states[j]).mirrors(nodes[j])
}

} // verus!
