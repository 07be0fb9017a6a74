use vstd::prelude::*;
use crate::async_action_interface::AsyncActionRunner;
use crate::async_child::{
    all_cancelled, async_views, cancels_guarded, reset_up_to, resets_guarded, AsyncChild,
    AsyncWhileAllView,
};
use crate::async_nodes::composite::{async_states_of, reset_nodes};
use crate::state::{all_mirror_async, State};
use crate::status::Status;

verus! {

/// What the host does with a branch of a guarded loop whose node has ended.
#[derive(Debug, Clone, Copy, PartialEq, Eq, Structural)]
pub enum BranchStep {
    /// Yield to the scheduler, reset the node of the branch and run it
    /// again.
    Restart,
    /// Stop the branch and cancel every other branch: the guarded loop has
    /// failed.
    Fail,
}

/// The control state of a cooperatively run guarded loop.
///
/// The host runs every guard and the child as branches of their own, side by
/// side. A branch whose node has ended asks `guard_done` or `payload_done` what to do. The
/// first guard that fails ends the guarded loop, which then finishes with
/// `false`; it never finishes with `true`.
pub struct AsyncWhileAll<A> {
    conditions: Vec<AsyncChild<A>>,
    child: Box<AsyncChild<A>>,
}

impl<A> AsyncWhileAll<A> {
    pub closed spec fn view(&self) -> AsyncWhileAllView<A>
        decreases self,
    {
        AsyncWhileAllView { guards: async_views(self.conditions@), child: Box::new(self.child@) }
    }

    /// A guarded loop over guards and a child. There has to be at least one
    /// guard.
    pub fn new(conditions: Vec<AsyncChild<A>>, child: AsyncChild<A>) -> (state: Self)
        requires
            conditions.len() > 0,
            forall|g: int| 0 <= g < conditions.len() ==> (#[trigger] conditions[g])@.wf(),
            forall|g: int| 0 <= g < conditions.len() ==> (#[trigger] conditions[g])@.untouched(),
            child@.wf(),
            child@.untouched(),
        ensures
            state@.wf(),
            state@.guards == async_views(conditions@),
            *state@.child == child@,
    {
        Self { conditions, child: Box::new(child) }
    }

    /// What a branch does after its node has ended with `success`.
    ///
    /// `allow_failure` tells a guard from the child: the failure of a guard
    /// fails the whole node, the failure of the child does not. Every other
    /// ending restarts the branch.
    pub fn branch_done(allow_failure: bool, success: bool) -> (step: BranchStep)
        ensures
            step == if allow_failure && !success {
                BranchStep::Fail
            } else {
                BranchStep::Restart
            },
    {
        if allow_failure && !success {
            BranchStep::Fail
        } else {
            BranchStep::Restart
        }
    }

    /// What the branch of a guard does after the guard has ended with
    /// `success`: a guard that fails ends the whole node, a guard that
    /// succeeds is restarted.
    pub fn guard_done(success: bool) -> (step: BranchStep)
        ensures
            step == if success {
                BranchStep::Restart
            } else {
                BranchStep::Fail
            },
    {
        Self::branch_done(true, success)
    }

    /// What the branch of the child does after the child has ended with
    /// `success`: it is restarted, whichever way the child ended. The child
    /// cannot end the node.
    pub fn payload_done(success: bool) -> (step: BranchStep)
        ensures
            step == BranchStep::Restart,
    {
        Self::branch_done(false, success)
    }

    /// Settles the guarded loop once all of its branches have stopped, which
    /// they do only after a guard has failed: every branch that was stopped
    /// in the middle of a run is reset, so that nothing is left showing
    /// `Running`, and the node finishes with `false`. The guards are
    /// cancelled in order and the child after them, and only the resets of
    /// the nodes that showed `Running` reach the runner.
    pub fn settle<R>(&mut self, runner: &mut R) -> (outcome: bool) where R: AsyncActionRunner<A>
        ensures
            !outcome,
            cancels_guarded(old(self)@, *old(runner), *final(runner)),
            old(self)@.wf() ==> final(self)@.wf(),
            final(self)@.guards == all_cancelled(old(self)@.guards),
            *final(self)@.child == old(self)@.child.cancelled(),
            forall|g: int|
                0 <= g < final(self)@.guards.len() ==> (#[trigger] final(self)@.guards[g]).status
                    != Some(Status::Running),
            final(self)@.child.status != Some(Status::Running),
    {
        let len: usize = self.conditions.len();
        let mut g: usize = 0;
        let ghost mut runners: Seq<R> = seq![*runner];
        while g < len
            invariant
                len == self.conditions.len(),
                len == old(self).conditions.len(),
                g <= len,
                self.child == old(self).child,
                old(self)@.wf() ==> forall|k: int|
                    0 <= k < g ==> (#[trigger] self.conditions@[k])@.wf(),
                runners.len() == g + 1,
                runners[0] == *old(runner),
                runners[g as int] == *runner,
                forall|k: int|
                    0 <= k < g ==> (#[trigger] old(self)@.guards[k]).cancels(
                        runners[k],
                        runners[k + 1],
                    ),
                forall|k: int|
                    0 <= k < g ==> (#[trigger] self.conditions@[k])@ == old(
                        self,
                    ).conditions@[k]@.cancelled(),
                forall|k: int|
                    g <= k < len ==> #[trigger] self.conditions@[k] == old(self).conditions@[k],
            decreases len - g,
        {
            assert(old(self)@.wf() ==> old(self)@.guards[g as int].wf());
            self.conditions[g].cancel(runner);
            proof {
                runners = runners.push(*runner);
            }
            g = g + 1;
        }
        self.child.cancel(runner);
        proof {
            runners = runners.push(*runner);
            assert(runners.len() == old(self)@.guards.len() + 2);
            if old(self)@.wf() {
                assert forall|k: int| 0 <= k < self@.guards.len() implies (
                #[trigger] self@.guards[k]).wf() by {
                    assert(self.conditions@[k]@.wf());
                }
            }
        }
        false
    }

    /// The guards and the child, for the host to run as branches.
    pub fn branches(&mut self) -> (branches: (&mut Vec<AsyncChild<A>>, &mut AsyncChild<A>))
        ensures
            async_views(branches.0@) == old(self)@.guards,
            branches.1@ == *old(self)@.child,
            final(self)@.guards == async_views(final(branches.0)@),
            *final(self)@.child == final(branches.1)@,
    {
        (&mut self.conditions, &mut *self.child)
    }

    /// Resets every guard and the child.
    pub fn reset<R>(&mut self, runner: &mut R) where R: AsyncActionRunner<A>
        ensures
            final(self)@.guards == reset_up_to(old(self)@.guards, old(self)@.guards.len() - 1),
            *final(self)@.child == old(self)@.child.reset(),
            resets_guarded(old(self)@, *old(runner), *final(runner)),
        decreases *old(self),
    {
        let len: usize = self.conditions.len();
        let ghost start = *runner;
        if len > 0 {
            reset_nodes(&mut self.conditions, len - 1, runner);
        }
        let ghost between = *runner;
        self.child.reset(runner);
        proof {
            let guards = old(self)@.guards;
            let chain = if len > 0 {
                choose|runners: Seq<R>|
                    {
                        &&& #[trigger] runners.len() == len + 1
                        &&& runners[0] == start
                        &&& runners[len as int] == between
                        &&& forall|j: int|
                            0 <= j < len && j < guards.len() ==> (#[trigger] guards[j]).resets(
                                runners[j],
                                runners[j + 1],
                            )
                    }
            } else {
                seq![start]
            };
            let runners = chain.push(*runner);
            assert(runners.len() == guards.len() + 2);
            assert forall|j: int| 0 <= j < guards.len() implies (#[trigger] guards[j]).resets(
                runners[j],
                runners[j + 1],
            ) by {
                assert(runners[j] == chain[j]);
                assert(runners[j + 1] == chain[j + 1]);
            }
        }
    }

    /// What an observer sees of the guards, in order, and after them of the
    /// child.
    pub fn children_states(&self) -> (states: Vec<State>)
        ensures
            all_mirror_async(states@, self@.guards.push(*self@.child)),
        decreases self,
    {
        let mut states = async_states_of(&self.conditions);
        let state = self.child.state();
        states.push(state);
        states
    }

    /// The display name of the node kind.
    pub fn name(&self) -> (name: &'static str)
        ensures
            name@ == "WhileAll"@,
    {
        "WhileAll"
    }
}

} // verus!
