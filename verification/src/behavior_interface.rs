use vstd::prelude::*;
use crate::status::Status;

verus! {

/// An action that always finishes within the tick that runs it.
///
/// The engine claims nothing about what an implementation does with itself or
/// with the shared context; it only fixes when the methods are called.
pub trait ImmediateAction<S> {
    /// Runs the action in a single tick.
    ///
    /// It cannot keep running: `true` is reported as `Status::Success`,
    /// `false` as `Status::Failure`.
    fn run(&mut self, delta: u64, shared: &mut S) -> bool;

    /// Resets the action to its initial, newly created state.
    fn reset(&mut self, shared: &mut S);

    /// Identifies the action.
    fn name(&self) -> &'static str;
}

/// An action that may take several ticks.
///
/// The engine claims nothing about what an implementation does with itself or
/// with the shared context; it only fixes when the methods are called.
pub trait SyncAction<S> {
    /// Ticks the action once.
    ///
    /// An implementation must not block. It returns `Status::Running` while
    /// the action has not completed. Once it has returned `Status::Success`
    /// or `Status::Failure`, the engine resets the action before it ticks it
    /// again.
    fn tick(&mut self, delta: u64, shared: &mut S) -> Status;

    /// Resets the action to its initial, newly created state.
    fn reset(&mut self, shared: &mut S);

    /// Identifies the action.
    fn name(&self) -> &'static str;
}

/// `success` is what one call of `run` returned. The call is given by its
/// arguments: the action, the delta and the shared context, where each
/// mutable reference carries the value that was handed in and the value that
/// the call left behind.
pub open spec fn immediate_ran<S, A: ImmediateAction<S> + ?Sized>(
    call: (&mut A, u64, &mut S),
    success: bool,
) -> bool {
    call_ensures(A::run, call, success)
}

/// The call of `reset` of an immediate action with these arguments: the
/// action and the shared context, each as handed in and as left behind.
pub open spec fn immediate_was_reset<S, A: ImmediateAction<S> + ?Sized>(
    call: (&mut A, &mut S),
) -> bool {
    call_ensures(A::reset, call, ())
}

/// `name` is what a call of `name` on the immediate action returned.
pub open spec fn immediate_named<S, A: ImmediateAction<S> + ?Sized>(
    action: &A,
    name: &'static str,
) -> bool {
    call_ensures(A::name, (action,), name)
}

/// The characters of `name` are those of what a call of `name` on the
/// immediate action returned.
pub open spec fn immediate_shows<S, A: ImmediateAction<S> + ?Sized>(
    action: &A,
    name: Seq<char>,
) -> bool {
    exists|shown: &'static str| shown@ == name && #[trigger] immediate_named::<S, A>(action, shown)
}

/// `status` is what one call of `tick` returned. The call is given by its
/// arguments: the action, the delta and the shared context, where each
/// mutable reference carries the value that was handed in and the value that
/// the call left behind.
pub open spec fn sync_ticked<S, A: SyncAction<S> + ?Sized>(
    call: (&mut A, u64, &mut S),
    status: Status,
) -> bool {
    call_ensures(A::tick, call, status)
}

/// The call of `reset` of an action with these arguments: the action and
/// the shared context, each as handed in and as left behind.
pub open spec fn sync_was_reset<S, A: SyncAction<S> + ?Sized>(call: (&mut A, &mut S)) -> bool {
    call_ensures(A::reset, call, ())
}

/// `name` is what a call of `name` on the action returned.
pub open spec fn sync_named<S, A: SyncAction<S> + ?Sized>(action: &A, name: &'static str) -> bool {
    call_ensures(A::name, (action,), name)
}

/// The characters of `name` are those of what a call of `name` on the
/// action returned.
pub open spec fn sync_shows<S, A: SyncAction<S> + ?Sized>(action: &A, name: Seq<char>) -> bool {
    exists|shown: &'static str| shown@ == name && #[trigger] sync_named::<S, A>(action, shown)
}

} // verus!
