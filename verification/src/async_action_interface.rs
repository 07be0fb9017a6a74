use vstd::prelude::*;

verus! {

/// Names a leaf action of a tree that is run cooperatively.
pub trait AsyncActionName {
    /// Identifies the action.
    fn name(&self) -> &'static str;
}

/// The part of an action runner that the engine calls without waiting.
///
/// A runner knows how to carry out the leaf actions of a tree. Running an
/// action may suspend and belongs to the host; resetting does not. The
/// engine claims nothing about what an implementation does; it only fixes
/// for which actions `reset` is called.
pub trait AsyncActionRunner<A> {
    /// Resets what the runner keeps for the action to its initial state.
    fn reset(&mut self, action: &A);
}

/// The characters of `name` are those of what a call of `name` on the
/// action returned.
pub open spec fn action_shows<A: AsyncActionName>(action: A, name: Seq<char>) -> bool {
    exists|shown: &'static str| shown@ == name && #[trigger] call_ensures(A::name, (&action,), shown)
}

} // verus!
