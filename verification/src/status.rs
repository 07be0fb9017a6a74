use vstd::prelude::*;

verus! {

/// The result of evaluating a node once.
///
/// `Success` and `Failure` are terminal: a node that reported one of them
/// makes no further progress until it is reset. Only `Running` asks to be
/// evaluated again.
#[derive(Debug, Clone, Copy, PartialEq, Eq, Structural)]
pub enum Status {
    /// The behavior or action succeeded.
    Success,
    /// The behavior or action failed.
    Failure,
    /// The behavior or action is still running.
    Running,
}

impl Status {
    /// `Success` or `Failure`.
    pub open spec fn terminal(self) -> bool {
        self != Status::Running
    }

    /// The status of an action that finished with the given outcome.
    pub open spec fn of_outcome(success: bool) -> Status {
        if success {
            Status::Success
        } else {
            Status::Failure
        }
    }

    /// `Success` and `Failure` swapped, `Running` left as it is.
    pub open spec fn inverted(self) -> Status {
        match self {
            Status::Success => Status::Failure,
            Status::Failure => Status::Success,
            Status::Running => Status::Running,
        }
    }

    /// Whether the status is terminal.
    pub fn is_terminal(self) -> (terminal: bool)
        ensures
            terminal == self.terminal(),
    {
        match self {
            Status::Running => false,
            _ => true,
        }
    }

    /// Turns the outcome of an action that cannot keep running into a status:
    /// `true` is `Success`, `false` is `Failure`.
    pub fn from_outcome(success: bool) -> (status: Status)
        ensures
            status == Status::of_outcome(success),
    {
        if success {
            Status::Success
        } else {
            Status::Failure
        }
    }

    /// Swaps `Success` and `Failure`; `Running` passes through unchanged.
    pub fn invert(self) -> (status: Status)
        ensures
            status == self.inverted(),
    {
        match self {
            Status::Success => Status::Failure,
            Status::Failure => Status::Success,
            Status::Running => Status::Running,
        }
    }
}

/// Whether a status cell holds a terminal status. An empty cell belongs to a
/// node that has not been evaluated since it was built or last reset.
pub open spec fn settled(cell: Option<Status>) -> bool {
    cell matches Some(status) && status.terminal()
}

/// Inverting twice gives the status back, and `Running` is never changed by
/// an inversion.
pub proof fn lemma_invert_involutive(status: Status)
    ensures
        status.inverted().inverted() == status,
        status.inverted() == Status::Running <==> status == Status::Running,
        status.inverted().terminal() == status.terminal(),
{
}

} // verus!
