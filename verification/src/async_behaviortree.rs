use vstd::prelude::*;
use crate::async_action_interface::{AsyncActionName, AsyncActionRunner};
use crate::async_child::{AsyncChild, AsyncChildView};
use crate::behavior::Behavior;
use crate::behaviortree::BehaviorTreePolicy;
use crate::state::State;

verus! {

/// What the host does after the root of a cooperatively run tree has ended
/// and the host has yielded once.
#[derive(Debug, Clone, Copy, PartialEq, Eq, Structural)]
pub enum DriverStep {
    /// Reset the tree and run it again.
    Restart,
    /// Stop running the tree.
    Stop,
}

/// A cooperatively run tree as contracts see it.
pub struct AsyncTreeView<A> {
    /// The completion policy.
    pub policy: BehaviorTreePolicy,
    /// The root node.
    pub root: AsyncChildView<A>,
}

/// The driver of a cooperatively run tree: it owns the root node and the
/// completion policy and tells the host what to do between runs.
///
/// The host runs the root to its end, yields, and asks `run_done`. When it
/// stops running the tree, or is cancelled at any point, it resets the tree,
/// so that no node is left showing `Running`.
pub struct AsyncBehaviorTree<A> {
    child: AsyncChild<A>,
    policy: BehaviorTreePolicy,
}

impl<A> AsyncBehaviorTree<A> {
    pub closed spec fn view(&self) -> AsyncTreeView<A> {
        AsyncTreeView { policy: self.policy, root: self.child@ }
    }

    /// Builds the tree that the schema describes and returns it with what an
    /// observer sees of it. Nothing in it has been started. A tree that
    /// should loop is run again whenever it has ended.
    ///
    /// The schema has to be well formed: a sequence or select without
    /// children and a guarded loop without conditions cannot be built.
    pub fn new(behavior: Behavior<A>, should_loop: bool) -> (built: (Self, State)) where
        A: AsyncActionName,

        requires
            behavior.well_formed(),
        ensures
            built.0@.root.realizes(behavior),
            built.0@.root.untouched(),
            built.0@.root.wf(),
            built.0@.policy == if should_loop {
                BehaviorTreePolicy::ReloadOnCompletion
            } else {
                BehaviorTreePolicy::RetainOnCompletion
            },
            built.1.mirrors_async(built.0@.root),
    {
        let (child, state) = AsyncChild::from_behavior_with_state(behavior);
        (Self { child, policy: BehaviorTreePolicy::from_should_loop(should_loop) }, state)
    }

    /// The root node, for the host to run.
    pub fn root(&mut self) -> (root: &mut AsyncChild<A>)
        ensures
            root@ == old(self)@.root,
            final(self)@.root == final(root)@,
            final(self)@.policy == old(self)@.policy,
    {
        &mut self.child
    }

    /// What the host does after a run of the root has ended: run the tree
    /// again under `ReloadOnCompletion`, stop under `RetainOnCompletion`.
    pub fn run_done(&self) -> (step: DriverStep)
        ensures
            step == if self@.policy == BehaviorTreePolicy::ReloadOnCompletion {
                DriverStep::Restart
            } else {
                DriverStep::Stop
            },
    {
        match self.policy {
            BehaviorTreePolicy::ReloadOnCompletion => DriverStep::Restart,
            BehaviorTreePolicy::RetainOnCompletion => DriverStep::Stop,
        }
    }

    /// Resets the tree, whatever its state: before a new run, and when the
    /// host stops or is cancelled.
    pub fn reset<R>(&mut self, runner: &mut R) where R: AsyncActionRunner<A>
        ensures
            final(self)@.root == old(self)@.root.reset(),
            final(self)@.policy == old(self)@.policy,
            old(self)@.root.wf() ==> final(self)@.root.wf() && final(self)@.root.untouched(),
            old(self)@.root.resets(*old(runner), *final(runner)),
    {
        self.child.reset(runner);
    }

    /// What an observer sees of the tree.
    pub fn state(&self) -> (state: State)
        ensures
            state.mirrors_async(self@.root),
    {
        self.child.state()
    }
}

} // verus!
