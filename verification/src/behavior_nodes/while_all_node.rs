use vstd::prelude::*;
use crate::behavior_nodes::composite::{states_of, views};
use crate::state::{all_mirror, State};
use crate::child::{Child, ChildView};
use crate::status::{settled, Status};

verus! {

/// The state of a guarded loop as contracts see it.
#[verifier::reject_recursive_types(S)]
pub struct WhileAllView<S> {
    /// The guards, in the order in which they are ticked.
    pub guards: Seq<ChildView<S>>,
    /// The node that runs while the guards hold.
    pub child: Box<ChildView<S>>,
    /// The position of the guard whose failure ended the node, if one has
    /// failed since the node was built or last reset.
    pub failed: Option<nat>,
}

impl<S> WhileAllView<S> {
    /// The invariant of a guarded loop.
    ///
    /// There is at least one guard. While no guard has failed, neither a
    /// guard nor the child rests on a terminal status. Once a guard has
    /// failed, it shows its `Failure`, and every other guard and the child
    /// are as they were built: nothing is left running.
    pub open spec fn wf(self) -> bool
        decreases self,
    {
        &&& self.guards.len() > 0
        &&& forall|g: int| 0 <= g < self.guards.len() ==> (#[trigger] self.guards[g]).wf()
        &&& self.child.wf()
        &&& match self.failed {
            None => {
                &&& forall|g: int|
                    0 <= g < self.guards.len() ==> !settled((#[trigger] self.guards[g]).status)
                &&& !settled(self.child.status)
            },
            Some(failing) => {
                &&& failing < self.guards.len()
                &&& self.guards[failing as int].status == Some(Status::Failure)
                &&& forall|g: int|
                    0 <= g < self.guards.len() && g != failing ==> (
                    #[trigger] self.guards[g]).status is None
                &&& self.child.status is None
            },
        }
    }

    /// No guard has failed, and neither a guard nor the child has been
    /// advanced.
    pub open spec fn pristine(self) -> bool {
        &&& self.failed is None
        &&& forall|g: int| 0 <= g < self.guards.len() ==> (#[trigger] self.guards[g]).status is None
        &&& self.child.status is None
    }

    /// Whether a status cell can belong to a guarded loop in this state: it
    /// shows `Failure` exactly if a guard has failed, and never `Success`.
    pub open spec fn agrees(self, cell: Option<Status>) -> bool {
        &&& self.failed is Some <==> cell == Some(Status::Failure)
        &&& cell != Some(Status::Success)
    }

    /// One tick leads from `self` to `next` and reports `status`.
    ///
    /// The guards are ticked in order up to the first that fails. If none
    /// fails, the child is ticked once, and reset at once if that finished
    /// it; the node reports `Running`. If a guard fails, the child is not
    /// ticked, every other guard and the child are cancelled, and the node
    /// reports `Failure` in the same tick.
    pub open spec fn ticked(self, delta: u64, next: Self, status: Status) -> bool
        decreases self, 0nat,
    {
        &&& next.guards.len() == self.guards.len()
        &&& forall|g: int|
            0 <= g < self.guards.len() ==> (#[trigger] self.guards[g]).ticked_as_guard(
                delta,
                next.guards[g],
                g,
                next.failed,
            )
        &&& match next.failed {
            None => {
                &&& self.child.ticked_restarting(delta, *next.child)
                &&& status == Status::Running
            },
            Some(failing) => {
                &&& failing < self.guards.len()
                &&& self.child.cancelled(*next.child)
                &&& status == Status::Failure
            },
        }
    }

    /// A reset leads from `self` to `next`: every guard and the child are
    /// reset, and the record of a failure is cleared.
    pub open spec fn reset_to(self, next: Self) -> bool
        decreases self,
    {
        &&& next.failed is None
        &&& next.guards.len() == self.guards.len()
        &&& forall|g: int|
            0 <= g < self.guards.len() ==> (#[trigger] self.guards[g]).reset_to(next.guards[g])
        &&& self.child.reset_to(*next.child)
    }
}

/// A failing guard ends a guarded loop in the tick in which it fails, and
/// the child does nothing in that tick or after it.
///
/// A tick reports `Failure` exactly if a guard is recorded as failed after
/// it, and `Running` otherwise. The recorded guard was ticked in this tick
/// and reported `Failure`. The child was not ticked in this tick: it is as
/// it was before, or has been reset because it was running. After the tick
/// nothing is left running, and the node counts as completed, so that it
/// cannot be ticked again before it is reset.
pub proof fn law_guard_failure_ends_at_once<S>(
    before: WhileAllView<S>,
    delta: u64,
    after: WhileAllView<S>,
    status: Status,
)
    requires
        before.wf(),
        before.failed is None,
        before.ticked(delta, after, status),
        after.wf(),
    ensures
        status == Status::Failure <==> after.failed is Some,
        status == Status::Running <==> after.failed is None,
        after.failed matches Some(failing) ==> {
            &&& failing < before.guards.len()
            &&& before.guards[failing as int].ticked(delta, after.guards[failing as int])
            &&& after.guards[failing as int].status == Some(Status::Failure)
            &&& before.child.cancelled(*after.child)
            &&& after.child.status is None
            &&& forall|g: int|
                0 <= g < after.guards.len() ==> (#[trigger] after.guards[g]).status != Some(
                    Status::Running,
                )
        },
{
    match after.failed {
        Some(failing) => {
        },
        None => {},
    }
}

/// Runs its child for as long as all of its guards hold.
///
/// Every tick evaluates the guards first, in order. A guard that succeeds is
/// reset and evaluated again on the next tick. The child is ticked only after
/// every guard has passed, and is started again whenever it finishes, with
/// either result. The first guard that fails ends the node with `Failure`
/// in that very tick: the child and every other guard are cancelled. The node
/// never reports `Success`.
#[verifier::reject_recursive_types(S)]
pub struct WhileAllState<S> {
    conditions: Vec<Child<S>>,
    child: Box<Child<S>>,
    failed: Option<usize>,
}

impl<S> WhileAllState<S> {
    pub closed spec fn view(&self) -> WhileAllView<S>
        decreases self,
    {
        WhileAllView {
            guards: views(self.conditions@),
            child: Box::new(self.child@),
            failed: match self.failed {
                Some(failing) => Some(failing as nat),
                None => None,
            },
        }
    }

    /// A guarded loop over guards and a child that have not been advanced.
    /// There has to be at least one guard.
    pub fn new(conditions: Vec<Child<S>>, child: Child<S>) -> (state: Self)
        requires
            conditions.len() > 0,
            forall|g: int| 0 <= g < conditions.len() ==> (#[trigger] conditions[g])@.wf(),
            forall|g: int| 0 <= g < conditions.len() ==> (#[trigger] conditions[g])@.status is None,
            child@.wf(),
            child@.status is None,
        ensures
            state@.wf(),
            state@.pristine(),
            state@.guards == views(conditions@),
            *state@.child == child@,
    {
        Self { conditions, child: Box::new(child), failed: None }
    }

    /// Resets the node at `position` if it is running.
    fn cancel(nodes: &mut Vec<Child<S>>, position: usize, shared: &mut S)
        requires
            position < old(nodes).len(),
            old(nodes)[position as int]@.wf(),
            !settled(old(nodes)[position as int]@.status),
        ensures
            final(nodes).len() == old(nodes).len(),
            forall|j: int|
                0 <= j < old(nodes).len() && j != position ==> #[trigger] final(nodes)[j] == old(
                    nodes,
                )[j],
            old(nodes)[position as int]@.cancelled(final(nodes)[position as int]@),
            old(nodes)[position as int]@.cancelled_with(
                *old(shared),
                final(nodes)[position as int]@,
                *final(shared),
            ),
            final(nodes)[position as int]@.wf(),
            final(nodes)[position as int]@.status is None,
        decreases *old(nodes),
    {
        match nodes[position].status() {
            Some(_) => {
                nodes[position].reset(shared);
            },
            None => {},
        }
    }

    /// Ticks the guards in order, then the child.
    ///
    /// A guard that reports `Success` is reset at once. If a guard reports
    /// `Failure`, no further guard and not the child is ticked; every other
    /// guard and the child are reset if they are running, and the node
    /// reports `Failure`. Otherwise the child is ticked once, reset at once
    /// if it finished, and the node reports `Running`.
    ///
    /// A guarded loop that has reported `Failure` has to be reset before it
    /// is ticked again.
    pub fn tick(&mut self, delta: u64, shared: &mut S) -> (status: Status)
        requires
            old(self)@.wf(),
            old(self)@.failed is None,
        ensures
            final(self)@.wf(),
            old(self)@.ticked(delta, final(self)@, status),
            old(self)@.ticked_with(delta, *old(shared), final(self)@, *final(shared)),
        decreases *old(self),
    {
        let n: usize = self.conditions.len();
        let mut g: usize = 0;
        let mut failing: usize = n;
        let ghost mut first: Seq<S> = seq![*shared];
        while g < n && failing == n
            invariant
                first.len() == (if failing < n {
                    g + 2
                } else {
                    g + 1
                }),
                first[0] == *old(shared),
                first[first.len() - 1] == *shared,
                forall|k: int|
                    0 <= k < g ==> (#[trigger] old(self)@.guards[k]).passed_with(
                        delta,
                        first[k],
                        self@.guards[k],
                        first[k + 1],
                    ),
                failing < n ==> old(self)@.guards[g as int].ticked_with(
                    delta,
                    first[g as int],
                    self@.guards[g as int],
                    first[g + 1],
                ),
                n == self.conditions.len(),
                n == old(self)@.guards.len(),
                g <= n,
                failing == n || failing == g,
                failing < n ==> g < n,
                old(self)@.wf(),
                old(self)@.failed is None,
                self.failed == old(self).failed,
                self.child == old(self).child,
                forall|k: int|
                    0 <= k < g ==> (#[trigger] old(self)@.guards[k]).ticked_as_guard(
                        delta,
                        self@.guards[k],
                        k,
                        None,
                    ),
                forall|k: int|
                    0 <= k < g ==> (#[trigger] self@.guards[k]).wf() && !settled(
                        self@.guards[k].status,
                    ),
                failing < n ==> old(self)@.guards[g as int].ticked(delta, self@.guards[g as int])
                    && self@.guards[g as int].status == Some(Status::Failure)
                    && self@.guards[g as int].wf(),
                forall|k: int|
                    (if failing < n {
                        g + 1
                    } else {
                        g as int
                    }) <= k < n ==> #[trigger] self.conditions@[k] == old(self).conditions@[k],
            decreases
                    (n - g) + (if failing == n {
                        1int
                    } else {
                        0int
                    }),
        {
            let ghost before = self@;
            let ghost earlier = first;
            assert(!settled(old(self)@.guards[g as int].status));
            let guard_status = self.conditions[g].tick(delta, shared);
            match guard_status {
                Status::Failure => {
                    failing = g;
                    proof {
                        first = first.push(*shared);
                        assert forall|k: int| 0 <= k < g implies (
                        #[trigger] old(self)@.guards[k]).passed_with(
                            delta,
                            first[k],
                            self@.guards[k],
                            first[k + 1],
                        ) by {
                            assert(self@.guards[k] == before.guards[k]);
                            assert(first[k] == earlier[k] && first[k + 1] == earlier[k + 1]);
                        }
                        assert forall|k: int| 0 <= k < g implies (#[trigger] self@.guards[k]).wf()
                            && !settled(self@.guards[k].status) by {
                            assert(self@.guards[k] == before.guards[k]);
                        }
                    }
                },
                Status::Success => {
                    self.conditions[g].reset(shared);
                    proof {
                        first = first.push(*shared);
                        assert forall|k: int| 0 <= k < g + 1 implies (
                        #[trigger] old(self)@.guards[k]).passed_with(
                            delta,
                            first[k],
                            self@.guards[k],
                            first[k + 1],
                        ) by {
                            if k < g {
                                assert(self@.guards[k] == before.guards[k]);
                                assert(first[k] == earlier[k] && first[k + 1] == earlier[k + 1]);
                            }
                        }
                        assert forall|k: int| 0 <= k < g + 1 implies (
                        #[trigger] self@.guards[k]).wf() && !settled(self@.guards[k].status) by {
                            if k < g {
                                assert(self@.guards[k] == before.guards[k]);
                            }
                        }
                    }
                    g = g + 1;
                },
                Status::Running => {
                    proof {
                        first = first.push(*shared);
                        assert forall|k: int| 0 <= k < g + 1 implies (
                        #[trigger] old(self)@.guards[k]).passed_with(
                            delta,
                            first[k],
                            self@.guards[k],
                            first[k + 1],
                        ) by {
                            if k < g {
                                assert(self@.guards[k] == before.guards[k]);
                                assert(first[k] == earlier[k] && first[k + 1] == earlier[k + 1]);
                            }
                        }
                        assert forall|k: int| 0 <= k < g + 1 implies (
                        #[trigger] self@.guards[k]).wf() && !settled(self@.guards[k].status) by {
                            if k < g {
                                assert(self@.guards[k] == before.guards[k]);
                            }
                        }
                    }
                    g = g + 1;
                },
            }
        }
        if failing < n {
            let ghost reached = self@;
            let ghost ticked = first;
            proof {
                first = Seq::new(
                    (n + 1) as nat,
                    |i: int|
                        if i <= failing + 1 {
                            ticked[i]
                        } else {
                            *shared
                        },
                );
            }
            let ghost mut second: Seq<S> = seq![*shared];
            let mut k: usize = 0;
            while k < n
                invariant
                    first.len() == n + 1,
                    first[0] == *old(shared),
                    second.len() == k + 1,
                    second[0] == first[n as int],
                    second[k as int] == *shared,
                    forall|j: int|
                        0 <= j < failing ==> (#[trigger] old(self)@.guards[j]).passed_with(
                            delta,
                            first[j],
                            reached.guards[j],
                            first[j + 1],
                        ),
                    old(self)@.guards[failing as int].ticked_with(
                        delta,
                        first[failing as int],
                        reached.guards[failing as int],
                        first[failing + 1],
                    ),
                    forall|j: int| failing < j < n ==> #[trigger] first[j + 1] == first[j],
                    forall|j: int|
                        0 <= j < k ==> (#[trigger] old(self)@.guards[j]).ticked_as_guard_with(
                            delta,
                            (first[j], first[j + 1]),
                            (second[j], second[j + 1]),
                            self@.guards[j],
                            j,
                            Some(failing as nat),
                        ),
                    n == self.conditions.len(),
                    n == old(self)@.guards.len(),
                    n == reached.guards.len(),
                    k <= n,
                    failing < n,
                    old(self)@.wf(),
                    old(self)@.failed is None,
                    self.failed == old(self).failed,
                    self.child == old(self).child,
                    forall|j: int|
                        0 <= j < failing ==> (#[trigger] old(self)@.guards[j]).ticked_as_guard(
                            delta,
                            reached.guards[j],
                            j,
                            None,
                        ),
                    forall|j: int|
                        0 <= j < failing ==> (#[trigger] reached.guards[j]).wf() && !settled(
                            reached.guards[j].status,
                        ),
                    old(self)@.guards[failing as int].ticked(delta, reached.guards[failing as int]),
                    reached.guards[failing as int].status == Some(Status::Failure),
                    reached.guards[failing as int].wf(),
                    forall|j: int|
                        failing < j < n ==> #[trigger] reached.guards[j] == old(self)@.guards[j],
                    forall|j: int| k <= j < n ==> #[trigger] self@.guards[j] == reached.guards[j],
                    forall|j: int|
                        0 <= j < k ==> (#[trigger] old(self)@.guards[j]).ticked_as_guard(
                            delta,
                            self@.guards[j],
                            j,
                            Some(failing as nat),
                        ),
                    forall|j: int| 0 <= j < k ==> (#[trigger] self@.guards[j]).wf(),
                    forall|j: int|
                        0 <= j < k && j != failing ==> (#[trigger] self@.guards[j]).status is None,
                    k > failing ==> self@.guards[failing as int] == reached.guards[failing as int],
                decreases n - k,
            {
                let ghost before = self@;
                let ghost earlier = second;
                if k != failing {
                    assert(self@.guards[k as int] == self.conditions@[k as int]@);
                    Self::cancel(&mut self.conditions, k, shared);
                    proof {
                        second = second.push(*shared);
                        assert forall|j: int| 0 <= j < k + 1 implies (
                        #[trigger] old(self)@.guards[j]).ticked_as_guard_with(
                            delta,
                            (first[j], first[j + 1]),
                            (second[j], second[j + 1]),
                            self@.guards[j],
                            j,
                            Some(failing as nat),
                        ) by {
                            if j < k {
                                assert(self@.guards[j] == before.guards[j]);
                                assert(second[j] == earlier[j] && second[j + 1] == earlier[j + 1]);
                            } else {
                                assert(before.guards[j] == reached.guards[j]);
                                assert(reached.guards[j].cancelled_with(
                                    second[j],
                                    self@.guards[j],
                                    second[j + 1],
                                ));
                                if j < failing {
                                    assert(old(self)@.guards[j].passed_with(
                                        delta,
                                        first[j],
                                        reached.guards[j],
                                        first[j + 1],
                                    ));
                                } else {
                                    assert(first[j + 1] == first[j]);
                                    assert(reached.guards[j] == old(self)@.guards[j]);
                                }
                            }
                        }
                        assert forall|j: int| k < j < n implies #[trigger] self@.guards[j]
                            == reached.guards[j] by {
                            assert(self@.guards[j] == before.guards[j]);
                        }
                        assert forall|j: int| 0 <= j < k + 1 implies (#[trigger] self@.guards[j]).wf() by {
                            if j < k {
                                assert(self@.guards[j] == before.guards[j]);
                            }
                        }
                        assert forall|j: int| 0 <= j < k + 1 && j != failing implies (
                        #[trigger] self@.guards[j]).status is None by {
                            if j < k {
                                assert(self@.guards[j] == before.guards[j]);
                            }
                        }
                    }
                } else {
                    proof {
                        second = second.push(*shared);
                        assert forall|j: int| 0 <= j < k + 1 implies (
                        #[trigger] old(self)@.guards[j]).ticked_as_guard_with(
                            delta,
                            (first[j], first[j + 1]),
                            (second[j], second[j + 1]),
                            self@.guards[j],
                            j,
                            Some(failing as nat),
                        ) by {
                            if j < k {
                                assert(second[j] == earlier[j] && second[j + 1] == earlier[j + 1]);
                            }
                        }
                    }
                }
                k = k + 1;
            }
            let ghost contexts = Seq::new(
                (2 * n + 1) as nat,
                |i: int|
                    if i <= n {
                        first[i]
                    } else {
                        second[i - n]
                    },
            );
            match self.child.status() {
                Some(_) => {
                    self.child.reset(shared);
                },
                None => {},
            }
            self.failed = Some(failing);
            proof {
                assert(contexts.len() == 2 * old(self)@.guards.len() + 1);
                assert forall|j: int| 0 <= j < n implies (
                #[trigger] old(self)@.guards[j]).ticked_as_guard_with(
                    delta,
                    (contexts[j], contexts[j + 1]),
                    (contexts[n + j], contexts[n + j + 1]),
                    self@.guards[j],
                    j,
                    self@.failed,
                ) by {
                    assert(contexts[j] == first[j] && contexts[j + 1] == first[j + 1]);
                    assert(contexts[n + j] == second[j] && contexts[n + j + 1] == second[j + 1]);
                }
            }
            Status::Failure
        } else {
            let ghost contexts = Seq::new(
                (2 * n + 1) as nat,
                |i: int|
                    if i <= n {
                        first[i]
                    } else {
                        first[n as int]
                    },
            );
            let child_status = self.child.tick(delta, shared);
            if child_status.is_terminal() {
                self.child.reset(shared);
            }
            proof {
                assert(contexts.len() == 2 * old(self)@.guards.len() + 1);
                assert forall|j: int| 0 <= j < n implies (
                #[trigger] old(self)@.guards[j]).ticked_as_guard_with(
                    delta,
                    (contexts[j], contexts[j + 1]),
                    (contexts[n + j], contexts[n + j + 1]),
                    self@.guards[j],
                    j,
                    self@.failed,
                ) by {
                    assert(contexts[j] == first[j] && contexts[j + 1] == first[j + 1]);
                    assert(contexts[n + j] == first[n as int]);
                    assert(contexts[n + j + 1] == first[n as int]);
                }
            }
            Status::Running
        }
    }

    /// Resets every guard and the child and clears the record of a failure.
    pub fn reset(&mut self, shared: &mut S)
        requires
            old(self)@.wf(),
        ensures
            final(self)@.wf(),
            final(self)@.pristine(),
            old(self)@.reset_to(final(self)@),
            old(self)@.reset_with(*old(shared), final(self)@, *final(shared)),
        decreases *old(self),
    {
        let n: usize = self.conditions.len();
        let mut g: usize = 0;
        let ghost mut contexts: Seq<S> = seq![*shared];
        while g < n
            invariant
                contexts.len() == g + 1,
                contexts[0] == *old(shared),
                contexts[g as int] == *shared,
                forall|k: int|
                    0 <= k < g ==> (#[trigger] old(self)@.guards[k]).reset_with(
                        contexts[k],
                        self@.guards[k],
                        contexts[k + 1],
                    ),
                n == self.conditions.len(),
                n == old(self)@.guards.len(),
                g <= n,
                old(self)@.wf(),
                self.child == old(self).child,
                forall|k: int|
                    0 <= k < g ==> (#[trigger] old(self)@.guards[k]).reset_to(self@.guards[k]),
                forall|k: int| 0 <= k < g ==> (#[trigger] self@.guards[k]).wf(),
                forall|k: int| g <= k < n ==> #[trigger] self.conditions@[k] == old(self).conditions@[k],
            decreases n - g,
        {
            let ghost before = self@;
            assert(old(self)@.guards[g as int].wf());
            self.conditions[g].reset(shared);
            proof {
                contexts = contexts.push(*shared);
                assert forall|k: int| 0 <= k < g + 1 implies (#[trigger] self@.guards[k]).wf() by {
                    if k < g {
                        assert(self@.guards[k] == before.guards[k]);
                    }
                }
                assert forall|k: int| 0 <= k < g + 1 implies (
                #[trigger] old(self)@.guards[k]).reset_with(
                    contexts[k],
                    self@.guards[k],
                    contexts[k + 1],
                ) by {
                    if k < g {
                        assert(self@.guards[k] == before.guards[k]);
                    }
                }
            }
            g = g + 1;
        }
        self.child.reset(shared);
        self.failed = None;
        proof {
            contexts = contexts.push(*shared);
            assert(contexts.len() == old(self)@.guards.len() + 2);
            assert forall|k: int| 0 <= k < n implies (#[trigger] self@.guards[k]).status is None
                && self@.guards[k].wf() by {
                assert(old(self)@.guards[k].reset_to(self@.guards[k]));
            }
        }
    }

    /// What an observer sees of the guards, in order, and after them of the
    /// child.
    pub fn children_states(&self) -> (states: Vec<State>)
        ensures
            all_mirror(states@, self@.guards.push(*self@.child)),
        decreases self,
    {
        let mut states = states_of(&self.conditions);
        let state = self.child.state();
        states.push(state);
        states
    }

    /// The display name of the node kind.
    pub fn name(&self) -> (name: &'static str)
        ensures
            name@ == "WhileAll"@,
    {
        "WhileAll"
    }
}

} // verus!
