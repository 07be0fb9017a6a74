//! How the shared context passes through a tree.
//!
//! The relations `ticked` and `reset_to` of the node views say how the
//! engine's own state moves. The relations here say the same and, with it,
//! what the leaf actions were handed: every leaf that a tick or a reset
//! reaches is called once, with the delta of the tick and with the shared
//! context as the leaf before it left it, in the order in which the nodes are
//! visited.

use vstd::prelude::*;
use crate::behavior_nodes::composite::CompositeView;
use crate::behavior_nodes::while_all_node::WhileAllView;
use crate::child::{ChildView, NodeView};
use crate::status::Status;

verus! {

impl<S> CompositeView<S> {
    /// A reset leads from `self` to `next` and from the shared context
    /// `shared` to `shared_after`: the children up to the one under the
    /// cursor are reset in order, each handed the context as the one before
    /// it left it.
    pub open spec fn reset_with(self, shared: S, next: Self, shared_after: S) -> bool
        decreases self,
    {
        exists|contexts: Seq<S>|
            {
                &&& #[trigger] contexts.len() == self.last_touched() + 2
                &&& contexts[0] == shared
                &&& contexts[self.last_touched() + 1] == shared_after
                &&& forall|j: int|
                    0 <= j <= self.last_touched() && j < self.children.len() ==> (
                    #[trigger] self.children[j]).reset_with(
                        contexts[j],
                        next.children[j],
                        contexts[j + 1],
                    )
            }
    }

    /// One tick leads from `self` to `next` and from the shared context
    /// `shared` to `shared_after`: the child under the cursor is ticked with
    /// the context as it is handed in, and no other child sees it.
    pub open spec fn ticked_with(self, delta: u64, shared: S, next: Self, shared_after: S) -> bool
        decreases self, 0nat,
    {
        &&& self.index < self.children.len()
        &&& self.children[self.index as int].ticked_with(
            delta,
            shared,
            next.children[self.index as int],
            shared_after,
        )
    }
}

impl<S> WhileAllView<S> {
    /// A reset leads from `self` to `next` and from the shared context
    /// `shared` to `shared_after`: the guards are reset in order and the
    /// child after them, each handed the context as the one before it left
    /// it.
    pub open spec fn reset_with(self, shared: S, next: Self, shared_after: S) -> bool
        decreases self,
    {
        exists|contexts: Seq<S>|
            {
                &&& #[trigger] contexts.len() == self.guards.len() + 2
                &&& contexts[0] == shared
                &&& contexts[self.guards.len() as int + 1] == shared_after
                &&& forall|g: int|
                    0 <= g < self.guards.len() ==> (#[trigger] self.guards[g]).reset_with(
                        contexts[g],
                        next.guards[g],
                        contexts[g + 1],
                    )
                &&& self.child.reset_with(
                    contexts[self.guards.len() as int],
                    *next.child,
                    contexts[self.guards.len() as int + 1],
                )
            }
    }

    /// One tick leads from `self` to `next` and from the shared context
    /// `shared` to `shared_after`.
    ///
    /// The tick has two rounds. In the first the guards are ticked in order,
    /// up to the first that fails, and the guards that succeed are reset; in
    /// the second, which only a failure brings, the other guards are
    /// cancelled in order. `contexts` holds the shared context before and
    /// after each guard's turn in the first round, and then before and after
    /// each guard's turn in the second: the guard at position `g` has the
    /// entries `g` and `g + 1` for the first round and, with `n` guards, the
    /// entries `n + g` and `n + g + 1` for the second. The child comes last:
    /// it is ticked, or cancelled after a failure, with the context as the
    /// last guard left it.
    pub open spec fn ticked_with(self, delta: u64, shared: S, next: Self, shared_after: S) -> bool
        decreases self, 0nat,
    {
        exists|contexts: Seq<S>|
            {
                &&& #[trigger] contexts.len() == 2 * self.guards.len() + 1
                &&& contexts[0] == shared
                &&& forall|g: int|
                    0 <= g < self.guards.len() ==> (#[trigger] self.guards[g]).ticked_as_guard_with(
                        delta,
                        (contexts[g], contexts[g + 1]),
                        (contexts[self.guards.len() + g], contexts[self.guards.len() + g + 1]),
                        next.guards[g],
                        g,
                        next.failed,
                    )
                &&& match next.failed {
                    None => self.child.ticked_restarting_with(
                        delta,
                        contexts[2 * self.guards.len() as int],
                        *next.child,
                        shared_after,
                    ),
                    Some(_) => self.child.cancelled_with(
                        contexts[2 * self.guards.len() as int],
                        *next.child,
                        shared_after,
                    ),
                }
            }
    }
}

impl<S> NodeView<S> {
    /// A reset leads from `self` to `next` and from the shared context
    /// `shared` to `shared_after`. A leaf action is reset by one call of its
    /// own `reset`; a wait leaves the context alone.
    pub open spec fn reset_with(self, shared: S, next: Self, shared_after: S) -> bool
        decreases self,
    {
        match self {
            NodeView::Action(action) => next matches NodeView::Action(after) && action.reset_with(
                shared,
                after,
                shared_after,
            ),
            NodeView::Wait(_) => shared_after == shared,
            NodeView::Invert(invert) => next matches NodeView::Invert(after)
                && invert.child.reset_with(shared, *after.child, shared_after),
            NodeView::Sequence(sequence) => next matches NodeView::Sequence(after)
                && sequence.reset_with(shared, after, shared_after),
            NodeView::Select(select) => next matches NodeView::Select(after) && select.reset_with(
                shared,
                after,
                shared_after,
            ),
            NodeView::Loop(repeat) => next matches NodeView::Loop(after)
                && repeat.child.reset_with(shared, *after.child, shared_after),
            NodeView::WhileAll(guarded) => next matches NodeView::WhileAll(after)
                && guarded.reset_with(shared, after, shared_after),
        }
    }

    /// One tick leads from `self` to `next`, reports `status`, and leads
    /// from the shared context `shared` to `shared_after`. A leaf action is
    /// ticked by one call of its own `run` or `tick`; a wait leaves the
    /// context alone.
    pub open spec fn ticked_with(
        self,
        delta: u64,
        shared: S,
        next: Self,
        shared_after: S,
        status: Status,
    ) -> bool
        decreases self, 0nat,
    {
        match self {
            NodeView::Action(action) => next matches NodeView::Action(after) && action.ticked_with(
                delta,
                shared,
                after,
                shared_after,
                status,
            ),
            NodeView::Wait(_) => shared_after == shared,
            NodeView::Invert(invert) => next matches NodeView::Invert(after)
                && invert.child.ticked_with(delta, shared, *after.child, shared_after),
            NodeView::Sequence(sequence) => next matches NodeView::Sequence(after)
                && sequence.ticked_with(delta, shared, after, shared_after),
            NodeView::Select(select) => next matches NodeView::Select(after) && select.ticked_with(
                delta,
                shared,
                after,
                shared_after,
            ),
            NodeView::Loop(repeat) => next matches NodeView::Loop(after)
                && repeat.child.ticked_restarting_with(delta, shared, *after.child, shared_after),
            NodeView::WhileAll(guarded) => next matches NodeView::WhileAll(after)
                && guarded.ticked_with(delta, shared, after, shared_after),
        }
    }
}

impl<S> ChildView<S> {
    /// A reset leads from `self` to `next` and from the shared context
    /// `shared` to `shared_after`.
    pub open spec fn reset_with(self, shared: S, next: Self, shared_after: S) -> bool
        decreases self,
    {
        &&& self.reset_to(next)
        &&& self.node.reset_with(shared, next.node, shared_after)
    }

    /// One tick leads from `self` to `next` and from the shared context
    /// `shared` to `shared_after`.
    pub open spec fn ticked_with(self, delta: u64, shared: S, next: Self, shared_after: S) -> bool
        decreases self, 1nat,
    {
        &&& self.ticked(delta, next)
        &&& next.status matches Some(status)
        &&& self.node.ticked_with(delta, shared, next.node, shared_after, status)
    }

    /// One tick in which the node reported `status`, followed at once by a
    /// reset, leads from `self` to `next`; the reset is handed the shared
    /// context as the tick left it.
    pub open spec fn ticked_and_reset_with(
        self,
        delta: u64,
        shared: S,
        next: Self,
        shared_after: S,
        status: Status,
    ) -> bool
        decreases self, 2nat,
    {
        exists|mid: Self, between: S|
            self.ticked_with(delta, shared, mid, between) && mid.status == Some(status)
                && #[trigger] mid.reset_with(between, next, shared_after)
    }

    /// One tick leads from `self` to `next`, where a node that finished in
    /// that tick was reset at once.
    pub open spec fn ticked_restarting_with(
        self,
        delta: u64,
        shared: S,
        next: Self,
        shared_after: S,
    ) -> bool
        decreases self, 3nat,
    {
        ||| self.ticked_with(delta, shared, next, shared_after) && next.status == Some(
            Status::Running,
        )
        ||| self.ticked_and_reset_with(delta, shared, next, shared_after, Status::Success)
        ||| self.ticked_and_reset_with(delta, shared, next, shared_after, Status::Failure)
    }

    /// Cancelling leads from `self` to `next`: a node that is running is
    /// reset, any other node and the shared context are left exactly as they
    /// were.
    pub open spec fn cancelled_with(self, shared: S, next: Self, shared_after: S) -> bool {
        if self.status == Some(Status::Running) {
            self.reset_with(shared, next, shared_after)
        } else {
            next == self && shared_after == shared
        }
    }

    /// The turn of a guard that did not fail: it was ticked once, and reset
    /// at once if it succeeded.
    pub open spec fn passed_with(self, delta: u64, shared: S, next: Self, shared_after: S) -> bool
        decreases self, 3nat,
    {
        ||| self.ticked_with(delta, shared, next, shared_after) && next.status == Some(
            Status::Running,
        )
        ||| self.ticked_and_reset_with(delta, shared, next, shared_after, Status::Success)
    }

    /// One tick of a guarded loop leads from `self` to `next`, where `self`
    /// is the guard at position `position` and `failed` the position of the
    /// guard that failed in this tick, if one did. `first` holds the shared
    /// context before and after the guard's turn in the round in which the
    /// guards are ticked, `second` before and after its turn in the round in
    /// which they are cancelled.
    ///
    /// A turn in which the guard is not called leaves the context alone.
    /// That is the second turn of every guard in a tick without a failure,
    /// of the failing guard, and of a guard that succeeded and was reset in
    /// its first turn; and the first turn of a guard behind the failing one.
    pub open spec fn ticked_as_guard_with(
        self,
        delta: u64,
        first: (S, S),
        second: (S, S),
        next: Self,
        position: int,
        failed: Option<nat>,
    ) -> bool
        decreases self, 4nat,
    {
        match failed {
            None => second.1 == second.0 && self.passed_with(delta, first.0, next, first.1),
            Some(failing) => {
                if position < failing {
                    ||| second.1 == second.0 && self.ticked_and_reset_with(
                        delta,
                        first.0,
                        next,
                        first.1,
                        Status::Success,
                    )
                    ||| exists|mid: Self|
                        self.ticked_with(delta, first.0, mid, first.1) && mid.status == Some(
                            Status::Running,
                        ) && #[trigger] mid.reset_with(second.0, next, second.1)
                } else if position == failing {
                    second.1 == second.0 && self.ticked_with(delta, first.0, next, first.1)
                        && next.status == Some(Status::Failure)
                } else {
                    first.1 == first.0 && self.cancelled_with(second.0, next, second.1)
                }
            },
        }
    }
}

/// In the tick in which a guard fails, no leaf of the child is ticked: the
/// child is cancelled, last of all. If it was not running, it and the shared
/// context are left as the guards left them; if it was running, it is reset
/// once, and what that reset makes of the context is what the tick leaves.
/// In a tick without a failure the child comes last as well, and is ticked
/// once.
pub proof fn law_failed_guard_spares_the_child<S>(
    before: WhileAllView<S>,
    delta: u64,
    shared: S,
    after: WhileAllView<S>,
    shared_after: S,
)
    requires
        before.ticked_with(delta, shared, after, shared_after),
    ensures
        after.failed is Some ==> exists|reached: S| #[trigger]
            before.child.cancelled_with(reached, *after.child, shared_after),
        after.failed is Some && before.child.status != Some(Status::Running) ==> *after.child
            == *before.child,
        after.failed is None ==> exists|reached: S| #[trigger]
            before.child.ticked_restarting_with(delta, reached, *after.child, shared_after),
{
    let contexts = choose|contexts: Seq<S>|
        {
            &&& #[trigger] contexts.len() == 2 * before.guards.len() + 1
            &&& match after.failed {
                None => before.child.ticked_restarting_with(
                    delta,
                    contexts[2 * before.guards.len() as int],
                    *after.child,
                    shared_after,
                ),
                Some(_) => before.child.cancelled_with(
                    contexts[2 * before.guards.len() as int],
                    *after.child,
                    shared_after,
                ),
            }
        };
    let reached = contexts[2 * before.guards.len() as int];
    if after.failed is Some {
        assert(before.child.cancelled_with(reached, *after.child, shared_after));
    } else {
        assert(before.child.ticked_restarting_with(delta, reached, *after.child, shared_after));
    }
}

/// A tick of a sequence or select hands the shared context to the child
/// under the cursor and to no other: every other child is exactly as before,
/// and what the ticked child makes of the context is what the tick leaves.
pub proof fn law_cursor_child_alone_sees_the_context<S>(
    before: ChildView<S>,
    delta: u64,
    shared: S,
    after: ChildView<S>,
    shared_after: S,
)
    requires
        before.node is Sequence || before.node is Select,
        before.ticked_with(delta, shared, after, shared_after),
    ensures
        ({
            let (was, is) = match (before.node, after.node) {
                (NodeView::Sequence(was), NodeView::Sequence(is)) => (was, is),
                (NodeView::Select(was), NodeView::Select(is)) => (was, is),
                _ => arbitrary(),
            };
            &&& was.index < was.children.len()
            &&& was.children[was.index as int].ticked_with(
                delta,
                shared,
                is.children[was.index as int],
                shared_after,
            )
            &&& forall|j: int|
                0 <= j < was.children.len() && j != was.index ==> #[trigger] is.children[j]
                    == was.children[j]
        }),
{
    reveal_with_fuel(ChildView::ticked_with, 2);
    reveal_with_fuel(NodeView::ticked_with, 2);
    reveal_with_fuel(CompositeView::ticked_with, 2);
    reveal_with_fuel(ChildView::ticked, 2);
    reveal_with_fuel(NodeView::ticked, 2);
    reveal_with_fuel(CompositeView::ticked, 2);
}

} // verus!
