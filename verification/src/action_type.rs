use vstd::prelude::*;
use crate::behavior_interface::{
    immediate_named, immediate_ran, immediate_shows, immediate_was_reset, sync_named, sync_shows,
    sync_ticked, sync_was_reset, ImmediateAction, SyncAction,
};
use crate::status::Status;

verus! {

/// A leaf action as the tree holds it: either kind of user action, boxed.
#[verifier::reject_recursive_types(S)]
pub enum ActionType<S> {
    Immediate(Box<dyn ImmediateAction<S>>),
    Sync(Box<dyn SyncAction<S>>),
}

impl<S> ActionType<S> {
    /// What a tick may make of a leaf: the leaf keeps its kind, and an
    /// immediate action has finished. Everything else is up to the action.
    pub open spec fn ticked(self, next: Self, status: Status) -> bool {
        match self {
            ActionType::Immediate(_) => next is Immediate && status.terminal(),
            ActionType::Sync(_) => next is Sync,
        }
    }

    /// What a reset may make of a leaf: the leaf keeps its kind.
    pub open spec fn reset_to(self, next: Self) -> bool {
        match self {
            ActionType::Immediate(_) => next is Immediate,
            ActionType::Sync(_) => next is Sync,
        }
    }

    /// `name` is what the action's own `name` returned.
    pub open spec fn named(&self, name: Seq<char>) -> bool {
        match self {
            ActionType::Immediate(action) => immediate_shows::<S, dyn ImmediateAction<S>>(
                &**action,
                name,
            ),
            ActionType::Sync(action) => sync_shows::<S, dyn SyncAction<S>>(&**action, name),
        }
    }

    /// One tick leads from `self` to `next` and reports `status`, where the
    /// action was handed `delta` and the shared context `shared`, and left
    /// the shared context as `shared_after`: the tick was one call of the
    /// action's own `run` or `tick` with exactly these values.
    pub closed spec fn ticked_with(
        self,
        delta: u64,
        shared: S,
        next: Self,
        shared_after: S,
        status: Status,
    ) -> bool {
        exists|call: (&mut ActionType<S>, u64, &mut S)|
            {
                &&& *call.0 == self
                &&& call.1 == delta
                &&& *call.2 == shared
                &&& #[trigger] call_ensures(
                    tick_leaf::<S>,
                    call,
                    (status, Ghost((next, shared_after))),
                )
            }
    }

    /// A reset leads from `self` to `next`, where the action was handed the
    /// shared context `shared` and left it as `shared_after`: the reset was
    /// one call of the action's own `reset` with exactly this value.
    pub closed spec fn reset_with(self, shared: S, next: Self, shared_after: S) -> bool {
        exists|call: (&mut ActionType<S>, &mut S)|
            {
                &&& *call.0 == self
                &&& *call.1 == shared
                &&& #[trigger] call_ensures(reset_leaf::<S>, call, Ghost((next, shared_after)))
            }
    }

    /// Ticks the action once and reports its status.
    ///
    /// An immediate action is run once, with the delta and the shared
    /// context as they are handed in, and its outcome is reported as
    /// `Success` or `Failure`; it never reports `Running`. Any other action
    /// is ticked once, with the same arguments, and the status that it
    /// returns is reported unchanged. The action and the shared context are
    /// left as that one call left them.
    pub fn tick(&mut self, delta: u64, shared: &mut S) -> (status: Status)
        ensures
            old(self).ticked(*final(self), status),
            match (*old(self), *final(self)) {
                (ActionType::Immediate(before), ActionType::Immediate(after)) => exists|
                    call: (&mut (dyn ImmediateAction<S> + 'static), u64, &mut S),
                    success: bool,
                |
                    {
                        &&& &*call.0 == &*before
                        &&& &*final(call.0) == &*after
                        &&& call.1 == delta
                        &&& *call.2 == *old(shared)
                        &&& *final(call.2) == *final(shared)
                        &&& #[trigger] immediate_ran(call, success)
                        &&& status == Status::of_outcome(success)
                    },
                (ActionType::Sync(before), ActionType::Sync(after)) => exists|
                    call: (&mut (dyn SyncAction<S> + 'static), u64, &mut S),
                |
                    {
                        &&& &*call.0 == &*before
                        &&& &*final(call.0) == &*after
                        &&& call.1 == delta
                        &&& *call.2 == *old(shared)
                        &&& *final(call.2) == *final(shared)
                        &&& #[trigger] sync_ticked(call, status)
                    },
                _ => false,
            },
            old(self).ticked_with(delta, *old(shared), *final(self), *final(shared), status),
    {
        let (status, _) = tick_leaf(self, delta, shared);
        status
    }

    /// Hands the reset on to the action: its `reset` is called once, with the
    /// shared context as it is handed in, and the action and the shared
    /// context are left as that call left them.
    pub fn reset(&mut self, shared: &mut S)
        ensures
            old(self).reset_to(*final(self)),
            match (*old(self), *final(self)) {
                (ActionType::Immediate(before), ActionType::Immediate(after)) => exists|
                    call: (&mut (dyn ImmediateAction<S> + 'static), &mut S),
                |
                    {
                        &&& &*call.0 == &*before
                        &&& &*final(call.0) == &*after
                        &&& *call.1 == *old(shared)
                        &&& *final(call.1) == *final(shared)
                        &&& #[trigger] immediate_was_reset(call)
                    },
                (ActionType::Sync(before), ActionType::Sync(after)) => exists|
                    call: (&mut (dyn SyncAction<S> + 'static), &mut S),
                |
                    {
                        &&& &*call.0 == &*before
                        &&& &*final(call.0) == &*after
                        &&& *call.1 == *old(shared)
                        &&& *final(call.1) == *final(shared)
                        &&& #[trigger] sync_was_reset(call)
                    },
                _ => false,
            },
            old(self).reset_with(*old(shared), *final(self), *final(shared)),
    {
        let _ = reset_leaf(self, shared);
    }

    /// The name the action gives itself: what its `name` returns.
    pub fn name(&self) -> (name: &'static str)
        ensures
            match self {
                ActionType::Immediate(action) => immediate_named::<S, dyn ImmediateAction<S>>(
                    &**action,
                    name,
                ),
                ActionType::Sync(action) => sync_named::<S, dyn SyncAction<S>>(&**action, name),
            },
            self.named(name@),
    {
        match self {
            ActionType::Immediate(immediate_action) => name_immediate::<
                S,
                dyn ImmediateAction<S>,
            >(&**immediate_action),
            ActionType::Sync(sync_action) => name_sync::<S, dyn SyncAction<S>>(&**sync_action),
        }
    }
}

/// What the two relations of a leaf with the shared context say of the
/// action's own methods.
///
/// A tick from `before` to `after` that was handed `delta` and `shared` and
/// left `shared_after` is one call of the action's `run` (for an immediate
/// action, whose outcome the status reports) or of its `tick` (whose status
/// is reported unchanged), on the action as it was, with `delta` and `shared`
/// as arguments, leaving the action as `after` and the context as
/// `shared_after`.
pub proof fn law_leaf_tick_is_one_call<S>(
    before: ActionType<S>,
    delta: u64,
    shared: S,
    after: ActionType<S>,
    shared_after: S,
    status: Status,
)
    requires
        before.ticked_with(delta, shared, after, shared_after, status),
    ensures
        before.ticked(after, status),
        match (before, after) {
            (ActionType::Immediate(was), ActionType::Immediate(is)) => exists|
                call: (&mut (dyn ImmediateAction<S> + 'static), u64, &mut S),
                success: bool,
            |
                {
                    &&& &*call.0 == &*was
                    &&& &*final(call.0) == &*is
                    &&& call.1 == delta
                    &&& *call.2 == shared
                    &&& *final(call.2) == shared_after
                    &&& #[trigger] immediate_ran(call, success)
                    &&& status == Status::of_outcome(success)
                },
            (ActionType::Sync(was), ActionType::Sync(is)) => exists|
                call: (&mut (dyn SyncAction<S> + 'static), u64, &mut S),
            |
                {
                    &&& &*call.0 == &*was
                    &&& &*final(call.0) == &*is
                    &&& call.1 == delta
                    &&& *call.2 == shared
                    &&& *final(call.2) == shared_after
                    &&& #[trigger] sync_ticked(call, status)
                },
            _ => false,
        },
{
}

/// A reset from `before` to `after` that was handed `shared` and left
/// `shared_after` is one call of the action's `reset`, on the action as it
/// was, with `shared` as argument, leaving the action as `after` and the
/// context as `shared_after`.
pub proof fn law_leaf_reset_is_one_call<S>(
    before: ActionType<S>,
    shared: S,
    after: ActionType<S>,
    shared_after: S,
)
    requires
        before.reset_with(shared, after, shared_after),
    ensures
        before.reset_to(after),
        match (before, after) {
            (ActionType::Immediate(was), ActionType::Immediate(is)) => exists|
                call: (&mut (dyn ImmediateAction<S> + 'static), &mut S),
            |
                {
                    &&& &*call.0 == &*was
                    &&& &*final(call.0) == &*is
                    &&& *call.1 == shared
                    &&& *final(call.1) == shared_after
                    &&& #[trigger] immediate_was_reset(call)
                },
            (ActionType::Sync(was), ActionType::Sync(is)) => exists|
                call: (&mut (dyn SyncAction<S> + 'static), &mut S),
            |
                {
                    &&& &*call.0 == &*was
                    &&& &*final(call.0) == &*is
                    &&& *call.1 == shared
                    &&& *final(call.1) == shared_after
                    &&& #[trigger] sync_was_reset(call)
                },
            _ => false,
        },
{
}

/// Ticks a leaf once, and tells with the status what the call left behind.
fn tick_leaf<S>(action: &mut ActionType<S>, delta: u64, shared: &mut S) -> (out: (
    Status,
    Ghost<(ActionType<S>, S)>,
))
    ensures
        out.1@ == (*final(action), *final(shared)),
        old(action).ticked(*final(action), out.0),
        match (*old(action), *final(action)) {
            (ActionType::Immediate(before), ActionType::Immediate(after)) => exists|
                call: (&mut (dyn ImmediateAction<S> + 'static), u64, &mut S),
                success: bool,
            |
                {
                    &&& &*call.0 == &*before
                    &&& &*final(call.0) == &*after
                    &&& call.1 == delta
                    &&& *call.2 == *old(shared)
                    &&& *final(call.2) == *final(shared)
                    &&& #[trigger] immediate_ran(call, success)
                    &&& out.0 == Status::of_outcome(success)
                },
            (ActionType::Sync(before), ActionType::Sync(after)) => exists|
                call: (&mut (dyn SyncAction<S> + 'static), u64, &mut S),
            |
                {
                    &&& &*call.0 == &*before
                    &&& &*final(call.0) == &*after
                    &&& call.1 == delta
                    &&& *call.2 == *old(shared)
                    &&& *final(call.2) == *final(shared)
                    &&& #[trigger] sync_ticked(call, out.0)
                },
            _ => false,
        },
{
    let status = match action {
        ActionType::Immediate(immediate_action) => {
            let success = run_immediate(&mut **immediate_action, delta, shared);
            Status::from_outcome(success)
        },
        ActionType::Sync(sync_action) => tick_sync(&mut **sync_action, delta, shared),
    };
    (status, Ghost((*action, *shared)))
}

/// Resets a leaf, and tells what the call left behind.
fn reset_leaf<S>(action: &mut ActionType<S>, shared: &mut S) -> (out: Ghost<(ActionType<S>, S)>)
    ensures
        out@ == (*final(action), *final(shared)),
        old(action).reset_to(*final(action)),
        match (*old(action), *final(action)) {
            (ActionType::Immediate(before), ActionType::Immediate(after)) => exists|
                call: (&mut (dyn ImmediateAction<S> + 'static), &mut S),
            |
                {
                    &&& &*call.0 == &*before
                    &&& &*final(call.0) == &*after
                    &&& *call.1 == *old(shared)
                    &&& *final(call.1) == *final(shared)
                    &&& #[trigger] immediate_was_reset(call)
                },
            (ActionType::Sync(before), ActionType::Sync(after)) => exists|
                call: (&mut (dyn SyncAction<S> + 'static), &mut S),
            |
                {
                    &&& &*call.0 == &*before
                    &&& &*final(call.0) == &*after
                    &&& *call.1 == *old(shared)
                    &&& *final(call.1) == *final(shared)
                    &&& #[trigger] sync_was_reset(call)
                },
            _ => false,
        },
{
    match action {
        ActionType::Immediate(immediate_action) => reset_immediate(
            &mut **immediate_action,
            shared,
        ),
        ActionType::Sync(sync_action) => reset_sync(&mut **sync_action, shared),
    }
    Ghost((*action, *shared))
}

/// Runs an immediate action once.
fn run_immediate<S, A: ImmediateAction<S> + ?Sized>(action: &mut A, delta: u64, shared: &mut S) -> (success:
    bool)
    ensures
        exists|call: (&mut A, u64, &mut S)|
            #![trigger call_ensures(A::run, call, success)]
            {
                &&& &*call.0 == &*old(action)
                &&& &*final(call.0) == &*final(action)
                &&& call.1 == delta
                &&& *call.2 == *old(shared)
                &&& *final(call.2) == *final(shared)
                &&& call_ensures(A::run, call, success)
                &&& immediate_ran(call, success)
            },
{
    action.run(delta, shared)
}

/// Ticks an action once.
fn tick_sync<S, A: SyncAction<S> + ?Sized>(action: &mut A, delta: u64, shared: &mut S) -> (status:
    Status)
    ensures
        exists|call: (&mut A, u64, &mut S)|
            #![trigger call_ensures(A::tick, call, status)]
            {
                &&& &*call.0 == &*old(action)
                &&& &*final(call.0) == &*final(action)
                &&& call.1 == delta
                &&& *call.2 == *old(shared)
                &&& *final(call.2) == *final(shared)
                &&& call_ensures(A::tick, call, status)
                &&& sync_ticked(call, status)
            },
{
    action.tick(delta, shared)
}

/// Resets an immediate action.
fn reset_immediate<S, A: ImmediateAction<S> + ?Sized>(action: &mut A, shared: &mut S)
    ensures
        exists|call: (&mut A, &mut S)|
            #![trigger call_ensures(A::reset, call, ())]
            {
                &&& &*call.0 == &*old(action)
                &&& &*final(call.0) == &*final(action)
                &&& *call.1 == *old(shared)
                &&& *final(call.1) == *final(shared)
                &&& call_ensures(A::reset, call, ())
                &&& immediate_was_reset(call)
            },
{
    action.reset(shared)
}

/// Resets an action.
fn reset_sync<S, A: SyncAction<S> + ?Sized>(action: &mut A, shared: &mut S)
    ensures
        exists|call: (&mut A, &mut S)|
            #![trigger call_ensures(A::reset, call, ())]
            {
                &&& &*call.0 == &*old(action)
                &&& &*final(call.0) == &*final(action)
                &&& *call.1 == *old(shared)
                &&& *final(call.1) == *final(shared)
                &&& call_ensures(A::reset, call, ())
                &&& sync_was_reset(call)
            },
{
    action.reset(shared)
}

/// Asks an immediate action for its name.
fn name_immediate<S, A: ImmediateAction<S> + ?Sized>(action: &A) -> (name: &'static str)
    ensures
        immediate_named::<S, A>(action, name),
{
    action.name()
}

/// Asks an action for its name.
fn name_sync<S, A: SyncAction<S> + ?Sized>(action: &A) -> (name: &'static str)
    ensures
        sync_named::<S, A>(action, name),
{
    action.name()
}

} // verus!
