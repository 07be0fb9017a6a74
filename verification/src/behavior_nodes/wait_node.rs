use vstd::prelude::*;
use crate::status::Status;

verus! {

/// The state of a wait leaf as contracts see it.
pub struct WaitView {
    /// The time to wait for.
    pub target: u64,
    /// The time accumulated since the leaf was built or last reset. It stops
    /// growing at `u64::MAX`.
    pub elapsed: u64,
    /// Whether the leaf has reported `Success` since it was built or last
    /// reset.
    pub completed: bool,
}

/// `elapsed + delta`, held at `u64::MAX`.
pub open spec fn accumulate(elapsed: u64, delta: u64) -> u64 {
    if elapsed + delta > u64::MAX {
        u64::MAX
    } else {
        (elapsed + delta) as u64
    }
}

impl WaitView {
    /// A completed leaf has reached its target.
    pub open spec fn wf(self) -> bool {
        self.completed ==> self.elapsed >= self.target
    }

    /// The state in which a wait leaf is built.
    pub open spec fn initial(target: u64) -> WaitView {
        WaitView { target, elapsed: 0, completed: false }
    }

    /// Nothing has been accumulated and nothing reported.
    pub open spec fn pristine(self) -> bool {
        self == WaitView::initial(self.target)
    }

    /// The state after one tick that brings `delta`.
    pub open spec fn advanced(self, delta: u64) -> WaitView {
        WaitView {
            target: self.target,
            elapsed: accumulate(self.elapsed, delta),
            completed: accumulate(self.elapsed, delta) >= self.target,
        }
    }

    /// What the leaf reports in this state after a tick: `Success` once the
    /// target is reached, `Running` before. It never reports `Failure`.
    pub open spec fn report(self) -> Status {
        if self.completed {
            Status::Success
        } else {
            Status::Running
        }
    }

    /// One tick leads from `self` to `next` and reports `status`.
    pub open spec fn ticked(self, delta: u64, next: WaitView, status: Status) -> bool {
        next == self.advanced(delta) && status == next.report()
    }

    /// A reset leads from `self` to `next`.
    pub open spec fn reset_to(self, next: WaitView) -> bool {
        next == WaitView::initial(self.target)
    }

    /// Whether a status cell can belong to a leaf in this state.
    pub open spec fn agrees(self, cell: Option<Status>) -> bool {
        &&& self.completed <==> cell == Some(Status::Success)
        &&& cell != Some(Status::Failure)
    }

    /// The state after `ticks` ticks that each bring `delta`, counted from
    /// the state in which the leaf is built.
    pub open spec fn after(target: u64, delta: u64, ticks: nat) -> WaitView
        decreases ticks,
    {
        if ticks == 0 {
            WaitView::initial(target)
        } else {
            WaitView::after(target, delta, (ticks - 1) as nat).advanced(delta)
        }
    }
}

/// The tick on which a wait for `target` completes when every tick brings
/// `delta`: the first one for a target of 0, else `target / delta` rounded up.
pub open spec fn completion_tick(target: u64, delta: u64) -> int
    recommends
        delta > 0,
{
    if target == 0 {
        1
    } else {
        (target + delta - 1) / (delta as int)
    }
}

/// A leaf that succeeds once the time handed to it adds up to its target.
pub struct WaitState {
    target: u64,
    elapsed: u64,
    completed: bool,
}

impl WaitState {
    pub closed spec fn view(&self) -> WaitView {
        WaitView { target: self.target, elapsed: self.elapsed, completed: self.completed }
    }

    /// A wait for `target` units of time, with nothing accumulated yet.
    pub fn new(target: u64) -> (state: Self)
        ensures
            state@ == WaitView::initial(target),
    {
        Self { target, elapsed: 0, completed: false }
    }

    /// Adds `dt` to the accumulated time. Reports `Success` if the target is
    /// reached, also when the target is 0 and `dt` is 0, and `Running`
    /// otherwise.
    ///
    /// A leaf that has reported `Success` has to be reset before it is
    /// ticked again.
    pub fn tick<S>(&mut self, dt: u64, shared: &mut S) -> (status: Status)
        requires
            !old(self)@.completed,
        ensures
            old(self)@.ticked(dt, final(self)@, status),
            final(self)@.wf(),
            *final(shared) == *old(shared),
    {
        self.elapsed = self.elapsed.saturating_add(dt);
        if self.elapsed >= self.target {
            self.completed = true;
            Status::Success
        } else {
            Status::Running
        }
    }

    /// Forgets the accumulated time.
    pub fn reset<S>(&mut self, shared: &mut S)
        ensures
            old(self)@.reset_to(final(self)@),
            *final(shared) == *old(shared),
    {
        self.elapsed = 0;
        self.completed = false;
    }

    /// The display name of the node kind.
    pub fn name(&self) -> (name: &'static str)
        ensures
            name@ == "Wait"@,
    {
        "Wait"
    }
}

/// After `ticks` equal ticks the accumulated time is `ticks * delta`, held at
/// `u64::MAX`, and the leaf is completed exactly if that reaches the target.
pub proof fn lemma_wait_after(target: u64, delta: u64, ticks: nat)
    ensures
        WaitView::after(target, delta, ticks).target == target,
        WaitView::after(target, delta, ticks).elapsed == if ticks * delta > u64::MAX {
            u64::MAX as int
        } else {
            ticks * delta
        },
        ticks > 0 ==> (WaitView::after(target, delta, ticks).completed <==> ticks * delta
            >= target),
        ticks == 0 ==> !WaitView::after(target, delta, ticks).completed,
    decreases ticks,
{
    if ticks > 0 {
        let before = (ticks - 1) as nat;
        lemma_wait_after(target, delta, before);
        assert(ticks * delta == before * delta + delta) by (nonlinear_arith)
            requires
                before == ticks - 1,
        ;
        assert(before * delta >= 0) by (nonlinear_arith);
    }
}

/// A wait for 0 succeeds on its first tick, whatever the tick brings.
pub proof fn law_wait_zero_target(delta: u64)
    ensures
        !WaitView::initial(0).completed,
        WaitView::initial(0).advanced(delta).report() == Status::Success,
{
}

/// When every tick brings the same `delta > 0`, a wait leaf built for
/// `target` reports `Running` on every tick before `completion_tick(target,
/// delta)` and `Success` on that tick. Until then it has not completed, so
/// each of these ticks is one the leaf accepts.
pub proof fn law_wait_completion_tick(target: u64, delta: u64, tick: nat)
    requires
        delta > 0,
        1 <= tick <= completion_tick(target, delta),
    ensures
        !WaitView::after(target, delta, (tick - 1) as nat).completed,
        WaitView::after(target, delta, tick) == WaitView::after(
            target,
            delta,
            (tick - 1) as nat,
        ).advanced(delta),
        WaitView::after(target, delta, tick).report() == if tick == completion_tick(
            target,
            delta,
        ) {
            Status::Success
        } else {
            Status::Running
        },
{
    let before = (tick - 1) as nat;
    let last = completion_tick(target, delta);
    lemma_wait_after(target, delta, before);
    lemma_wait_after(target, delta, tick);
    if target > 0 {
        let d = delta as int;
        let t = target as int;
        // last is the quotient of target + delta - 1 by delta
        assert(last * d <= t + d - 1 < last * d + d) by (nonlinear_arith)
            requires
                last == (t + d - 1) / d,
                d > 0,
        ;
        assert(before * d <= (last - 1) * d) by (nonlinear_arith)
            requires
                before <= last - 1,
                d > 0,
        ;
        assert((last - 1) * d == last * d - d) by (nonlinear_arith);
        if tick < last {
            assert(tick * d <= (last - 1) * d) by (nonlinear_arith)
                requires
                    tick <= last - 1,
                    d > 0,
            ;
        }
    } else {
        assert(before * delta == 0) by (nonlinear_arith)
            requires
                before == 0,
        ;
        assert(tick * delta >= 0) by (nonlinear_arith);
    }
}

} // verus!
