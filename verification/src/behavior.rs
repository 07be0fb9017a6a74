use vstd::prelude::*;

verus! {

/// Describes a behavior: the schema from which a running tree is built.
///
/// `A` is the payload of a leaf action. The engine never looks into it.
#[derive(Debug, PartialEq)]
pub enum Behavior<A> {
    /// A high level description of an action.
    Action(A),
    /// Waits an amount of time before continuing, given in the unit in which
    /// ticks report elapsed time.
    Wait(u64),
    /// Converts `Success` into `Failure` and vice versa.
    Invert(Box<Behavior<A>>),
    /// Runs behaviors one by one until all succeeded.
    ///
    /// The sequence fails if a behavior fails and succeeds if all the
    /// behaviors succeed: a short-circuited logical AND.
    Sequence(Vec<Behavior<A>>),
    /// Runs behaviors one by one until a behavior succeeds.
    ///
    /// If a behavior fails the next one is tried; the select fails if the
    /// last behavior fails: a short-circuited logical OR.
    Select(Vec<Behavior<A>>),
    /// Runs a behavior in a loop: when it fails or succeeds it is reset and
    /// started again.
    Loop(Box<Behavior<A>>),
    /// Runs the behavior while all conditions are running or succeed, and
    /// fails as soon as a condition fails.
    ///
    /// A condition that succeeds is reset and started again, and so is the
    /// behavior when it fails or succeeds.
    WhileAll(Vec<Behavior<A>>, Box<Behavior<A>>),
}

impl<A> Behavior<A> {
    /// Whether a tree can be built from the schema: every sequence and every
    /// select has at least one child, and every guarded loop at least one
    /// condition.
    pub open spec fn well_formed(self) -> bool
        decreases self,
    {
        match self {
            Behavior::Action(_) => true,
            Behavior::Wait(_) => true,
            Behavior::Invert(child) => child.well_formed(),
            Behavior::Sequence(children) => {
                &&& children.len() > 0
                &&& forall|j: int|
                    0 <= j < children.len() ==> (#[trigger] children[j]).well_formed()
            },
            Behavior::Select(children) => {
                &&& children.len() > 0
                &&& forall|j: int|
                    0 <= j < children.len() ==> (#[trigger] children[j]).well_formed()
            },
            Behavior::Loop(child) => child.well_formed(),
            Behavior::WhileAll(conditions, child) => {
                &&& conditions.len() > 0
                &&& forall|j: int|
                    0 <= j < conditions.len() ==> (#[trigger] conditions[j]).well_formed()
                &&& child.well_formed()
            },
        }
    }

    /// Checks whether a tree can be built from the schema.
    pub fn is_well_formed(&self) -> (ok: bool)
        ensures
            ok == self.well_formed(),
        decreases self,
    {
        match self {
            Behavior::Action(_) => true,
            Behavior::Wait(_) => true,
            Behavior::Invert(child) => child.is_well_formed(),
            Behavior::Sequence(children) => Self::are_well_formed(children),
            Behavior::Select(children) => Self::are_well_formed(children),
            Behavior::Loop(child) => child.is_well_formed(),
            Behavior::WhileAll(conditions, child) => Self::are_well_formed(conditions)
                && child.is_well_formed(),
        }
    }

    /// Checks that the list is not empty and that a tree can be built from
    /// each schema in it.
    fn are_well_formed(behaviors: &Vec<Behavior<A>>) -> (ok: bool)
        ensures
            ok == all_well_formed(behaviors@),
        decreases behaviors,
    {
        if behaviors.len() == 0 {
            return false;
        }
        let mut j: usize = 0;
        while j < behaviors.len()
            invariant
                j <= behaviors.len(),
                forall|k: int| 0 <= k < j ==> (#[trigger] behaviors@[k]).well_formed(),
            decreases behaviors.len() - j,
        {
            if !behaviors[j].is_well_formed() {
                return false;
            }
            j = j + 1;
        }
        true
    }
}

impl<A: Clone> Behavior<A> {
    /// `copy` is a clone of `self`: the same schema, in which the payload of
    /// each action is a clone of the payload at the same place.
    pub open spec fn cloned_to(self, copy: Self) -> bool
        decreases self,
    {
        match self {
            Behavior::Action(action) => copy matches Behavior::Action(other)
                && vstd::pervasive::cloned(action, other),
            Behavior::Wait(target) => copy == Behavior::<A>::Wait(target),
            Behavior::Invert(child) => copy matches Behavior::Invert(other) && child.cloned_to(
                *other,
            ),
            Behavior::Sequence(children) => {
                &&& copy matches Behavior::Sequence(others)
                &&& others.len() == children.len()
                &&& forall|j: int|
                    0 <= j < children.len() ==> (#[trigger] children[j]).cloned_to(others[j])
            },
            Behavior::Select(children) => {
                &&& copy matches Behavior::Select(others)
                &&& others.len() == children.len()
                &&& forall|j: int|
                    0 <= j < children.len() ==> (#[trigger] children[j]).cloned_to(others[j])
            },
            Behavior::Loop(child) => copy matches Behavior::Loop(other) && child.cloned_to(*other),
            Behavior::WhileAll(conditions, child) => {
                &&& copy matches Behavior::WhileAll(others, other)
                &&& others.len() == conditions.len()
                &&& forall|j: int|
                    0 <= j < conditions.len() ==> (#[trigger] conditions[j]).cloned_to(others[j])
                &&& child.cloned_to(*other)
            },
        }
    }

    /// A clone of the schema.
    pub fn duplicate(&self) -> (copy: Self)
        ensures
            self.cloned_to(copy),
        decreases self,
    {
        match self {
            Behavior::Action(action) => Behavior::Action(action.clone()),
            Behavior::Wait(target) => Behavior::Wait(*target),
            Behavior::Invert(child) => Behavior::Invert(Box::new(child.duplicate())),
            Behavior::Sequence(children) => Behavior::Sequence(Self::duplicate_all(children)),
            Behavior::Select(children) => Behavior::Select(Self::duplicate_all(children)),
            Behavior::Loop(child) => Behavior::Loop(Box::new(child.duplicate())),
            Behavior::WhileAll(conditions, child) => Behavior::WhileAll(
                Self::duplicate_all(conditions),
                Box::new(child.duplicate()),
            ),
        }
    }

    /// Clones of the schemas, in the same order.
    fn duplicate_all(behaviors: &Vec<Behavior<A>>) -> (copies: Vec<Behavior<A>>)
        ensures
            copies.len() == behaviors.len(),
            forall|j: int| 0 <= j < behaviors.len() ==> (#[trigger] behaviors[j]).cloned_to(copies[j]),
        decreases behaviors,
    {
        let mut copies: Vec<Behavior<A>> = Vec::new();
        let mut j: usize = 0;
        while j < behaviors.len()
            invariant
                j <= behaviors.len(),
                copies.len() == j,
                forall|k: int| 0 <= k < j ==> (#[trigger] behaviors[k]).cloned_to(copies[k]),
            decreases behaviors.len() - j,
        {
            let copy = behaviors[j].duplicate();
            copies.push(copy);
            j = j + 1;
        }
        copies
    }
}

impl<A: Clone> Clone for Behavior<A> {
    fn clone(&self) -> (copy: Self)
        ensures
            self.cloned_to(copy),
    {
        self.duplicate()
    }
}

/// The list is not empty, and a tree can be built from each schema in it.
pub open spec fn all_well_formed<A>(behaviors: Seq<Behavior<A>>) -> bool {
    &&& behaviors.len() > 0
    &&& forall|j: int| 0 <= j < behaviors.len() ==> (#[trigger] behaviors[j]).well_formed()
}

} // verus!
