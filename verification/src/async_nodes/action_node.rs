use vstd::prelude::*;
use crate::async_action_interface::{AsyncActionName, AsyncActionRunner};

verus! {

/// Calls the runner's `reset` for the action, once, and hands back what the
/// runner has become.
fn reset_through<A, R: AsyncActionRunner<A>>(runner: &mut R, action: &A) -> (after: Ghost<R>)
    ensures
        after@ == *final(runner),
        exists|call: (&mut R, &A)|
            {
                &&& *call.0 == *old(runner)
                &&& *final(call.0) == *final(runner)
                &&& *call.1 == *action
                &&& #[trigger] call_ensures(R::reset, call, ())
            },
{
    runner.reset(action);
    Ghost(*runner)
}

/// One call of the runner's `reset` for `action` leads the runner from
/// `before` to `after`.
pub closed spec fn runner_reset<A, R: AsyncActionRunner<A>>(before: R, action: A, after: R) -> bool {
    exists|call: (&mut R, &A)|
        *call.0 == before && *call.1 == action && #[trigger] call_ensures(
            reset_through::<A, R>,
            call,
            Ghost(after),
        )
}

/// What `runner_reset` says of the runner's own method: it is one call of
/// `reset` on the runner as it was, for the action, that leaves the runner
/// as `after`.
pub proof fn law_runner_reset_is_one_call<A, R: AsyncActionRunner<A>>(
    before: R,
    action: A,
    after: R,
)
    requires
        runner_reset(before, action, after),
    ensures
        exists|call: (&mut R, &A)|
            {
                &&& *call.0 == before
                &&& *final(call.0) == after
                &&& *call.1 == action
                &&& #[trigger] call_ensures(R::reset, call, ())
            },
{
}

/// A leaf of a cooperatively run tree: the payload of an action, which a
/// runner carries out.
pub struct AsyncActionState<A> {
    action: A,
}

impl<A> AsyncActionState<A> {
    /// The payload.
    pub closed spec fn payload(self) -> A {
        self.action
    }

    /// A leaf for the given payload.
    pub fn new(action: A) -> (state: Self)
        ensures
            state.payload() == action,
    {
        Self { action }
    }

    /// The payload, for the runner to carry out.
    pub fn action(&self) -> (action: &A)
        ensures
            *action == self.payload(),
    {
        &self.action
    }

    /// Hands the reset on to the runner: the runner's `reset` is called
    /// once, for the payload, and the runner is left as that call left it.
    /// The payload is not changed.
    pub fn reset<R>(&mut self, runner: &mut R) where R: AsyncActionRunner<A>
        ensures
            final(self).payload() == old(self).payload(),
            exists|call: (&mut R, &A)|
                {
                    &&& *call.0 == *old(runner)
                    &&& *final(call.0) == *final(runner)
                    &&& *call.1 == old(self).payload()
                    &&& #[trigger] call_ensures(R::reset, call, ())
                },
            runner_reset(*old(runner), old(self).payload(), *final(runner)),
    {
        let _ = reset_through(runner, &self.action);
    }

    /// The name that the payload gives itself: what its `name` returns.
    pub fn name(&self) -> (name: &'static str) where A: AsyncActionName
        ensures
            call_ensures(A::name, (&self.payload(),), name),
    {
        self.action.name()
    }
}

} // verus!
