use vstd::prelude::*;
use crate::action_type::ActionType;
use crate::behavior::Behavior;
use crate::child::{Child, ChildView};
use crate::state::State;
use crate::status::{settled, Status};

verus! {

/// What the driver does with a tree that has reached a terminal status.
#[derive(Debug, Clone, Copy, PartialEq, Eq, Structural)]
pub enum BehaviorTreePolicy {
    /// Resets the tree before the next tick, so that it starts from scratch.
    ReloadOnCompletion,
    /// Keeps the terminal status until the tree is reset by hand.
    RetainOnCompletion,
}

impl BehaviorTreePolicy {
    /// The policy of a tree that should loop, or should not.
    pub fn from_should_loop(should_loop: bool) -> (policy: Self)
        ensures
            policy == if should_loop {
                BehaviorTreePolicy::ReloadOnCompletion
            } else {
                BehaviorTreePolicy::RetainOnCompletion
            },
    {
        if should_loop {
            BehaviorTreePolicy::ReloadOnCompletion
        } else {
            BehaviorTreePolicy::RetainOnCompletion
        }
    }
}

/// A driven tree as contracts see it.
#[verifier::reject_recursive_types(S)]
pub struct TreeView<S> {
    /// The completion policy.
    pub policy: BehaviorTreePolicy,
    /// The root node.
    pub root: ChildView<S>,
    /// The context that the leaf actions share.
    pub shared: S,
}

impl<S> TreeView<S> {
    /// The root is well formed.
    pub open spec fn wf(self) -> bool {
        self.root.wf()
    }

    /// One tick of the driver leads from `self` to `next`.
    ///
    /// A tree whose root has not finished is ticked once. A finished tree is
    /// left exactly as it is, shared context included, under
    /// `RetainOnCompletion`; under `ReloadOnCompletion` it is reset first and
    /// then ticked once. The leaves are handed the tree's own shared
    /// context, and what they make of it is the tree's shared context after
    /// the tick.
    pub open spec fn ticked(self, dt: u64, next: Self) -> bool {
        &&& next.policy == self.policy
        &&& if !settled(self.root.status) {
            self.root.ticked_with(dt, self.shared, next.root, next.shared)
        } else if self.policy == BehaviorTreePolicy::RetainOnCompletion {
            next == self
        } else {
            exists|mid: ChildView<S>, between: S| #[trigger]
                self.root.reset_with(self.shared, mid, between) && mid.ticked_with(
                    dt,
                    between,
                    next.root,
                    next.shared,
                )
        }
    }

    /// A reset of the driver leads from `self` to `next`: the root is reset,
    /// with the tree's own shared context handed to the leaves.
    pub open spec fn reset_to(self, next: Self) -> bool {
        &&& next.policy == self.policy
        &&& self.root.reset_with(self.shared, next.root, next.shared)
    }
}

/// A tick of a finished tree that is retained changes nothing: the root,
/// everything below it and the shared context are exactly as before, so no
/// leaf was called.
pub proof fn law_retained_tick_changes_nothing<S>(before: TreeView<S>, dt: u64, after: TreeView<S>)
    requires
        settled(before.root.status),
        before.policy == BehaviorTreePolicy::RetainOnCompletion,
        before.ticked(dt, after),
    ensures
        after == before,
        after.shared == before.shared,
        after.root == before.root,
{
}

/// The driver of a tree: it owns the root node, the completion policy and the
/// context that the leaf actions share, and is what callers tick.
#[verifier::reject_recursive_types(S)]
pub struct BehaviorTree<S> {
    child: Child<S>,
    policy: BehaviorTreePolicy,
    shared: S,
}

impl<S> BehaviorTree<S> {
    pub closed spec fn view(&self) -> TreeView<S> {
        TreeView { policy: self.policy, root: self.child@, shared: self.shared }
    }

    /// Builds the tree that the schema describes. Nothing in it has been
    /// advanced.
    ///
    /// The schema has to be well formed: a sequence or select without
    /// children and a guarded loop without conditions cannot be built.
    pub fn new<A>(behavior: Behavior<A>, policy: BehaviorTreePolicy, shared: S) -> (tree: Self) where
        A: Into<ActionType<S>>,

        requires
            behavior.well_formed(),
        ensures
            tree@.wf(),
            tree@.policy == policy,
            tree@.shared == shared,
            tree@.root.status is None,
            tree@.root.realizes(behavior),
            tree@.root.built_from(behavior),
    {
        let child = Child::from_behavior(behavior);
        Self { child, policy, shared }
    }

    /// Advances the tree by one tick that brings `dt` and returns the status
    /// of the root.
    ///
    /// A tree that has finished returns its terminal status again without
    /// being entered, if the policy is `RetainOnCompletion`. If the policy is
    /// `ReloadOnCompletion`, it is reset and starts from scratch with this
    /// tick.
    pub fn tick(&mut self, dt: u64) -> (status: Status)
        requires
            old(self)@.wf(),
        ensures
            final(self)@.wf(),
            old(self)@.ticked(dt, final(self)@),
            final(self)@.root.status == Some(status),
    {
        match self.child.status() {
            Some(status) => {
                if status.is_terminal() {
                    match self.policy {
                        BehaviorTreePolicy::ReloadOnCompletion => {
                            self.child.reset(&mut self.shared);
                            assert(old(self)@.root.reset_with(
                                old(self)@.shared,
                                self@.root,
                                self@.shared,
                            ));
                        },
                        BehaviorTreePolicy::RetainOnCompletion => {
                            return status;
                        },
                    }
                }
            },
            None => {},
        }
        self.child.tick(dt, &mut self.shared)
    }

    /// Ticks the tree as `tick` does, then shows the observer what can be
    /// seen of the tree and the status of this tick.
    pub fn tick_with_observer<O>(&mut self, dt: u64, observer: &mut O) -> (status: Status) where
        O: FnMut(State, Status),

        requires
            old(self)@.wf(),
            forall|state: State, status: Status| call_requires(*old(observer), (state, status)),
        ensures
            final(self)@.wf(),
            old(self)@.ticked(dt, final(self)@),
            final(self)@.root.status == Some(status),
            exists|state: State| #[trigger]
                state.mirrors(final(self)@.root) && call_ensures(
                    *old(observer),
                    (state, status),
                    (),
                ),
    {
        let status = self.tick(dt);
        let state = self.child.state();
        observer(state, status);
        status
    }

    /// What an observer sees of the tree.
    pub fn state(&self) -> (state: State)
        ensures
            state.mirrors(self@.root),
    {
        self.child.state()
    }

    /// Resets the tree, whatever its status, so that it is as it was built.
    pub fn reset(&mut self)
        requires
            old(self)@.wf(),
        ensures
            final(self)@.wf(),
            final(self)@.policy == old(self)@.policy,
            old(self)@.root.reset_to(final(self)@.root),
            old(self)@.reset_to(final(self)@),
    {
        self.child.reset(&mut self.shared);
    }

    /// The status of the root after the last tick, `None` before the first
    /// tick and after a reset.
    pub fn status(&self) -> (status: Option<Status>)
        ensures
            status == self@.root.status,
    {
        self.child.status()
    }
}

} // verus!
