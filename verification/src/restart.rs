//! What a reset restores: a node that has been reset is, in everything the
//! engine keeps of it, the node that is built from its schema.

use vstd::prelude::*;
use crate::behavior::Behavior;
use crate::behavior_nodes::composite::CompositeView;
use crate::behavior_nodes::invert_node::InvertView;
use crate::behavior_nodes::loop_node::LoopView;
use crate::behavior_nodes::while_all_node::WhileAllView;
use crate::child::{lemma_idle_is_untouched, ChildView, NodeView};
use crate::status::Status;

verus! {

impl<S> ChildView<S> {
    /// The node without its leaf actions: what the engine itself keeps of
    /// it. Every leaf action is replaced by one fixed action and loses its
    /// name; names, status cells, cursors, flags and waits stay.
    pub open spec fn skeleton(self) -> ChildView<S>
        decreases self,
    {
        match self.node {
            NodeView::Action(_) => ChildView {
                name: Seq::empty(),
                status: self.status,
                node: NodeView::Action(arbitrary()),
            },
            NodeView::Wait(_) => self,
            NodeView::Invert(invert) => ChildView {
                name: self.name,
                status: self.status,
                node: NodeView::Invert(
                    InvertView {
                        completed: invert.completed,
                        child: Box::new(invert.child.skeleton()),
                    },
                ),
            },
            NodeView::Sequence(sequence) => ChildView {
                name: self.name,
                status: self.status,
                node: NodeView::Sequence(
                    CompositeView {
                        children: skeletons(sequence.children),
                        index: sequence.index,
                        completed: sequence.completed,
                    },
                ),
            },
            NodeView::Select(select) => ChildView {
                name: self.name,
                status: self.status,
                node: NodeView::Select(
                    CompositeView {
                        children: skeletons(select.children),
                        index: select.index,
                        completed: select.completed,
                    },
                ),
            },
            NodeView::Loop(repeat) => ChildView {
                name: self.name,
                status: self.status,
                node: NodeView::Loop(LoopView { child: Box::new(repeat.child.skeleton()) }),
            },
            NodeView::WhileAll(guarded) => ChildView {
                name: self.name,
                status: self.status,
                node: NodeView::WhileAll(
                    WhileAllView {
                        guards: skeletons(guarded.guards),
                        child: Box::new(guarded.child.skeleton()),
                        failed: guarded.failed,
                    },
                ),
            },
        }
    }
}

/// The skeletons of a list of nodes, in order.
pub open spec fn skeletons<S>(nodes: Seq<ChildView<S>>) -> Seq<ChildView<S>>
    decreases nodes,
{
    Seq::new(
        nodes.len(),
        |j: int|
            if 0 <= j < nodes.len() {
                nodes[j].skeleton()
            } else {
                arbitrary()
            },
    )
}

/// A reset keeps a node well formed and leaves its status cell empty.
pub proof fn lemma_reset_keeps_wf<S>(node: ChildView<S>, reset: ChildView<S>)
    requires
        node.wf(),
        node.reset_to(reset),
    ensures
        reset.wf(),
        reset.status is None,
    decreases node,
{
    match node.node {
        NodeView::Action(_) => {},
        NodeView::Wait(_) => {},
        NodeView::Invert(invert) => {
            let after = reset.node->Invert_0;
            lemma_reset_keeps_wf(*invert.child, *after.child);
        },
        NodeView::Sequence(sequence) => {
            lemma_reset_keeps_children(sequence, reset.node->Sequence_0);
        },
        NodeView::Select(select) => {
            lemma_reset_keeps_children(select, reset.node->Select_0);
        },
        NodeView::Loop(repeat) => {
            let after = reset.node->Loop_0;
            lemma_reset_keeps_wf(*repeat.child, *after.child);
        },
        NodeView::WhileAll(guarded) => {
            let after = reset.node->WhileAll_0;
            assert forall|g: int| 0 <= g < after.guards.len() implies (#[trigger] after.guards[g]).wf()
                && after.guards[g].status is None by {
                lemma_reset_keeps_wf(guarded.guards[g], after.guards[g]);
            }
            lemma_reset_keeps_wf(*guarded.child, *after.child);
        },
    }
}

/// After the reset of a control node every child is well formed and has an
/// empty status cell.
proof fn lemma_reset_keeps_children<S>(node: CompositeView<S>, reset: CompositeView<S>)
    requires
        node.children.len() > 0,
        node.index <= node.children.len(),
        forall|j: int| 0 <= j < node.children.len() ==> (#[trigger] node.children[j]).wf(),
        forall|j: int|
            node.index < j < node.children.len() ==> (#[trigger] node.children[j]).status is None,
        node.reset_to(reset),
    ensures
        forall|j: int| 0 <= j < reset.children.len() ==> (#[trigger] reset.children[j]).wf(),
        forall|j: int| 0 <= j < reset.children.len() ==> (#[trigger] reset.children[j]).status is None,
    decreases node,
{
    assert forall|j: int| 0 <= j < reset.children.len() implies (#[trigger] reset.children[j]).wf()
        && reset.children[j].status is None by {
        if j <= node.last_touched() {
            lemma_reset_keeps_wf(node.children[j], reset.children[j]);
        }
    }
}

/// A reset keeps the structure of a node.
pub proof fn lemma_reset_keeps_structure<S, A>(
    node: ChildView<S>,
    reset: ChildView<S>,
    behavior: Behavior<A>,
)
    requires
        node.realizes(behavior),
        node.reset_to(reset),
    ensures
        reset.realizes(behavior),
    decreases behavior,
{
    match behavior {
        Behavior::Action(_) => {},
        Behavior::Wait(_) => {},
        Behavior::Invert(child) => {
            lemma_reset_keeps_structure(
                *node.node->Invert_0.child,
                *reset.node->Invert_0.child,
                *child,
            );
        },
        Behavior::Sequence(children) => {
            let before = node.node->Sequence_0;
            let after = reset.node->Sequence_0;
            assert forall|j: int| 0 <= j < children@.len() implies after.children[j].realizes(
                #[trigger] children@[j],
            ) by {
                if j <= before.last_touched() {
                    lemma_reset_keeps_structure(before.children[j], after.children[j], children@[j]);
                }
            }
        },
        Behavior::Select(children) => {
            let before = node.node->Select_0;
            let after = reset.node->Select_0;
            assert forall|j: int| 0 <= j < children@.len() implies after.children[j].realizes(
                #[trigger] children@[j],
            ) by {
                if j <= before.last_touched() {
                    lemma_reset_keeps_structure(before.children[j], after.children[j], children@[j]);
                }
            }
        },
        Behavior::Loop(child) => {
            lemma_reset_keeps_structure(*node.node->Loop_0.child, *reset.node->Loop_0.child, *child);
        },
        Behavior::WhileAll(conditions, child) => {
            let before = node.node->WhileAll_0;
            let after = reset.node->WhileAll_0;
            assert forall|g: int| 0 <= g < conditions@.len() implies after.guards[g].realizes(
                #[trigger] conditions@[g],
            ) by {
                lemma_reset_keeps_structure(before.guards[g], after.guards[g], conditions@[g]);
            }
            lemma_reset_keeps_structure(*before.child, *after.child, *child);
        },
    }
}

/// A tick keeps the structure of a node.
pub proof fn lemma_tick_keeps_structure<S, A>(
    node: ChildView<S>,
    delta: u64,
    after: ChildView<S>,
    behavior: Behavior<A>,
)
    requires
        node.realizes(behavior),
        node.ticked(delta, after),
    ensures
        after.realizes(behavior),
    decreases behavior, 0nat,
{
    match behavior {
        Behavior::Action(_) => {},
        Behavior::Wait(_) => {},
        Behavior::Invert(child) => {
            lemma_tick_keeps_structure(
                *node.node->Invert_0.child,
                delta,
                *after.node->Invert_0.child,
                *child,
            );
        },
        Behavior::Sequence(children) => {
            let before = node.node->Sequence_0;
            let next = after.node->Sequence_0;
            assert forall|j: int| 0 <= j < children@.len() implies next.children[j].realizes(
                #[trigger] children@[j],
            ) by {
                if j == before.index {
                    lemma_tick_keeps_structure(
                        before.children[j],
                        delta,
                        next.children[j],
                        children@[j],
                    );
                }
            }
        },
        Behavior::Select(children) => {
            let before = node.node->Select_0;
            let next = after.node->Select_0;
            assert forall|j: int| 0 <= j < children@.len() implies next.children[j].realizes(
                #[trigger] children@[j],
            ) by {
                if j == before.index {
                    lemma_tick_keeps_structure(
                        before.children[j],
                        delta,
                        next.children[j],
                        children@[j],
                    );
                }
            }
        },
        Behavior::Loop(child) => {
            lemma_restart_keeps_structure(
                *node.node->Loop_0.child,
                delta,
                *after.node->Loop_0.child,
                *child,
            );
        },
        Behavior::WhileAll(conditions, child) => {
            let before = node.node->WhileAll_0;
            let next = after.node->WhileAll_0;
            assert forall|g: int| 0 <= g < conditions@.len() implies next.guards[g].realizes(
                #[trigger] conditions@[g],
            ) by {
                lemma_guard_keeps_structure(
                    before.guards[g],
                    delta,
                    next.guards[g],
                    g,
                    next.failed,
                    conditions@[g],
                );
            }
            if next.failed is Some {
                if before.child.status == Some(Status::Running) {
                    lemma_reset_keeps_structure(*before.child, *next.child, *child);
                }
            } else {
                lemma_restart_keeps_structure(*before.child, delta, *next.child, *child);
            }
        },
    }
}

/// A tick that is followed at once by a reset keeps the structure of a node.
proof fn lemma_tick_and_reset_keeps_structure<S, A>(
    node: ChildView<S>,
    delta: u64,
    after: ChildView<S>,
    status: Status,
    behavior: Behavior<A>,
)
    requires
        node.realizes(behavior),
        node.ticked_and_reset(delta, after, status),
    ensures
        after.realizes(behavior),
    decreases behavior, 1nat,
{
    let mid = choose|mid: ChildView<S>|
        node.ticked(delta, mid) && mid.status == Some(status) && #[trigger] mid.reset_to(after);
    lemma_tick_keeps_structure(node, delta, mid, behavior);
    lemma_reset_keeps_structure(mid, after, behavior);
}

/// A tick that restarts a finished node keeps the structure of the node.
proof fn lemma_restart_keeps_structure<S, A>(
    node: ChildView<S>,
    delta: u64,
    after: ChildView<S>,
    behavior: Behavior<A>,
)
    requires
        node.realizes(behavior),
        node.ticked_restarting(delta, after),
    ensures
        after.realizes(behavior),
    decreases behavior, 2nat,
{
    if node.ticked(delta, after) && after.status == Some(Status::Running) {
        lemma_tick_keeps_structure(node, delta, after, behavior);
    } else if node.ticked_and_reset(delta, after, Status::Success) {
        lemma_tick_and_reset_keeps_structure(
            node,
            delta,
            after,
            Status::Success,
            behavior,
        );
    } else {
        lemma_tick_and_reset_keeps_structure(
            node,
            delta,
            after,
            Status::Failure,
            behavior,
        );
    }
}

/// A tick of a guarded loop keeps the structure of each guard.
proof fn lemma_guard_keeps_structure<S, A>(
    node: ChildView<S>,
    delta: u64,
    after: ChildView<S>,
    position: int,
    failed: Option<nat>,
    behavior: Behavior<A>,
)
    requires
        node.realizes(behavior),
        node.ticked_as_guard(delta, after, position, failed),
    ensures
        after.realizes(behavior),
    decreases behavior, 2nat,
{
    if node.ticked(delta, after) {
        lemma_tick_keeps_structure(node, delta, after, behavior);
    } else if node.ticked_and_reset(delta, after, Status::Success) {
        lemma_tick_and_reset_keeps_structure(
            node,
            delta,
            after,
            Status::Success,
            behavior,
        );
    } else if node.ticked_and_reset(delta, after, Status::Running) {
        lemma_tick_and_reset_keeps_structure(
            node,
            delta,
            after,
            Status::Running,
            behavior,
        );
    } else if node.reset_to(after) {
        lemma_reset_keeps_structure(node, after, behavior);
    }
}

/// Two untouched nodes of the same structure have the same skeleton: they
/// can differ in their leaf actions only.
pub proof fn lemma_untouched_nodes_agree<S, A>(
    one: ChildView<S>,
    other: ChildView<S>,
    behavior: Behavior<A>,
)
    requires
        one.wf(),
        other.wf(),
        one.untouched(),
        other.untouched(),
        one.realizes(behavior),
        other.realizes(behavior),
    ensures
        one.skeleton() == other.skeleton(),
    decreases behavior,
{
    match behavior {
        Behavior::Action(_) => {},
        Behavior::Wait(_) => {},
        Behavior::Invert(child) => {
            lemma_untouched_nodes_agree(
                *one.node->Invert_0.child,
                *other.node->Invert_0.child,
                *child,
            );
        },
        Behavior::Sequence(children) => {
            let left = one.node->Sequence_0;
            let right = other.node->Sequence_0;
            assert forall|j: int| 0 <= j < children@.len() implies left.children[j].skeleton()
                == right.children[j].skeleton() by {
                lemma_untouched_nodes_agree(left.children[j], right.children[j], children@[j]);
            }
            assert(skeletons(left.children) =~= skeletons(right.children));
        },
        Behavior::Select(children) => {
            let left = one.node->Select_0;
            let right = other.node->Select_0;
            assert forall|j: int| 0 <= j < children@.len() implies left.children[j].skeleton()
                == right.children[j].skeleton() by {
                lemma_untouched_nodes_agree(left.children[j], right.children[j], children@[j]);
            }
            assert(skeletons(left.children) =~= skeletons(right.children));
        },
        Behavior::Loop(child) => {
            lemma_untouched_nodes_agree(*one.node->Loop_0.child, *other.node->Loop_0.child, *child);
        },
        Behavior::WhileAll(conditions, child) => {
            let left = one.node->WhileAll_0;
            let right = other.node->WhileAll_0;
            assert forall|g: int| 0 <= g < conditions@.len() implies left.guards[g].skeleton()
                == right.guards[g].skeleton() by {
                lemma_untouched_nodes_agree(left.guards[g], right.guards[g], conditions@[g]);
            }
            assert(skeletons(left.guards) =~= skeletons(right.guards));
            lemma_untouched_nodes_agree(*left.child, *right.child, *child);
        },
    }
}

/// A reset makes a node what it was when it was built.
///
/// Let `node` be any node of a tree built from `behavior`, in whatever state,
/// and `reset` what a reset makes of it. Then `reset` meets everything that
/// building promises of a new node: it is well formed, its status cell is
/// empty and it has the structure of `behavior`. Nothing in it counts as
/// advanced, and it has the skeleton of every newly built node `built` of
/// the same schema: the two differ at most in their leaf actions, whose
/// state is their authors' business. So the next tick of `reset` goes by the
/// same rule from the same state as the first tick of `built`.
pub proof fn law_reset_restores_built_state<S, A>(
    node: ChildView<S>,
    reset: ChildView<S>,
    built: ChildView<S>,
    behavior: Behavior<A>,
)
    requires
        node.wf(),
        node.realizes(behavior),
        node.reset_to(reset),
        built.wf(),
        built.status is None,
        built.realizes(behavior),
    ensures
        reset.wf(),
        reset.status is None,
        reset.realizes(behavior),
        reset.untouched(),
        reset.skeleton() == built.skeleton(),
{
    lemma_reset_keeps_wf(node, reset);
    lemma_reset_keeps_structure(node, reset, behavior);
    lemma_idle_is_untouched(reset);
    lemma_idle_is_untouched(built);
    lemma_untouched_nodes_agree(reset, built, behavior);
}

} // verus!
