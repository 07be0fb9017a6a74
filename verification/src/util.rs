use vstd::prelude::*;

verus! {

/// A suspension point that gives control back to the scheduler exactly once.
///
/// The first poll asks to be woken and stays pending; every later poll is
/// ready.
pub struct Yield {
    done: bool,
}

/// What a poll of a `Yield` tells the host to do.
#[derive(Debug, Clone, Copy, PartialEq, Eq, Structural)]
pub enum YieldPoll {
    /// Wake the task and report that it is pending.
    Pending,
    /// Report that it is ready.
    Ready,
}

impl Yield {
    /// Whether the suspension point has been polled.
    pub closed spec fn polled(self) -> bool {
        self.done
    }

    /// Polls the suspension point: pending on the first poll, ready on every
    /// later one.
    pub fn poll(&mut self) -> (poll: YieldPoll)
        ensures
            final(self).polled(),
            poll == if old(self).polled() {
                YieldPoll::Ready
            } else {
                YieldPoll::Pending
            },
    {
        if self.done {
            return YieldPoll::Ready;
        }
        self.done = true;
        YieldPoll::Pending
    }
}

/// A suspension point that has not been polled yet.
pub fn yield_now() -> (point: Yield)
    ensures
        !point.polled(),
{
    Yield { done: false }
}

} // verus!
