use vstd::prelude::*;
use vstd::hash_map::StringHashMap;

verus! {

/// A value whose type has been erased.
///
/// The engine cannot look into a value once its type is gone, and Verus
/// knows nothing of what a cell holds: the cell exists to carry a value of
/// any type through a map of one type.
#[verifier::external_body]
pub struct Erased {
    inner: Box<dyn std::any::Any>,
}

/// Boxes a value and forgets its type, by the unsizing of `Box<T>` into
/// `Box<dyn Any>`. Nothing is claimed of the cell here; that a cell is one
/// made from a value is what `made_from` says of a call of this function.
#[verifier::external_body]
fn erase<T: 'static>(data: T) -> (cell: Erased) {
    Erased { inner: Box::new(data) }
}

/// `<dyn Any>::downcast_ref`: the value in the cell if it is of type `T`,
/// `None` if it is of another type.
///
/// Claimed: a cell made from a value of type `T` gives that value, and a
/// value that is given is one from which the cell is made. So the look
/// gives nothing exactly for a cell that is not made from a value of type
/// `T`. That a cell made from a value of one type is not made from a value
/// of another is not claimed: no contract can tell two types apart.
#[verifier::external_body]
fn downcast_ref<T: 'static>(cell: &Erased) -> (value: Option<&T>)
    ensures
        forall|data: T| #[trigger] call_ensures(erase::<T>, (data,), *cell) ==> value == Some(&data),
        value matches Some(found) ==> call_ensures(erase::<T>, (*found,), *cell),
{
    cell.inner.downcast_ref::<T>()
}

/// `<dyn Any>::downcast_mut`: the value in the cell if it is of type `T`,
/// `None` if it is of another type.
///
/// Claimed: a cell made from a value of type `T` gives a reference to that
/// value, and a value that is given is one from which the cell was made. In
/// the end the cell is one made from what the value has become through the
/// reference. A cell that gives nothing is not changed.
#[verifier::external_body]
fn downcast_mut<T: 'static>(cell: &mut Erased) -> (value: Option<&mut T>)
    ensures
        forall|data: T| #[trigger]
            call_ensures(erase::<T>, (data,), *old(cell)) ==> (value matches Some(found) && *found
                == data),
        value matches Some(found) ==> call_ensures(erase::<T>, (*found,), *old(cell))
            && call_ensures(erase::<T>, (*final(found),), *final(cell)),
        value is None ==> *final(cell) == *old(cell),
{
    cell.inner.downcast_mut::<T>()
}

/// The cell is one made from `data`: it holds `data`, a value of type `T`.
pub closed spec fn made_from<T: 'static>(data: T, cell: Erased) -> bool {
    call_ensures(erase::<T>, (data,), cell)
}

/// `value` is what a look into `cell` for a value of type `T` gave: the
/// result of the downcast of the cell to `T`. Nothing more is known of it.
pub closed spec fn looked_up<T: 'static>(cell: Erased, value: Option<&T>) -> bool {
    call_ensures(downcast_ref::<T>, (&cell,), value)
}

/// `value` is what a look into a cell for a mutable value of type `T` gave:
/// the result of the mutable downcast to `T`, where `look.0` carries the
/// cell as it was handed in and as it is left in the end. Nothing more is
/// known of it.
pub closed spec fn looked_up_mut<T: 'static>(look: (&mut Erased,), value: Option<&mut T>) -> bool {
    call_ensures(downcast_mut::<T>, look, value)
}

/// Looks into the cell for a mutable value of type `T`, and says of the
/// result that it is what that look gave.
fn look_mut<T: 'static>(cell: &mut Erased) -> (value: Option<&mut T>)
    ensures
        exists|look: (&mut Erased,)|
            #![trigger call_ensures(downcast_mut::<T>, look, value)]
            {
                &&& *look.0 == *old(cell)
                &&& *final(look.0) == *final(cell)
                &&& call_ensures(downcast_mut::<T>, look, value)
                &&& looked_up_mut(look, value)
            },
        forall|data: T| #[trigger]
            made_from(data, *old(cell)) ==> (value matches Some(found) && *found == data),
        value matches Some(found) ==> made_from(*found, *old(cell)) && made_from(
            *final(found),
            *final(cell),
        ),
        value is None ==> *final(cell) == *old(cell),
{
    downcast_mut(cell)
}

/// A store of values of any type under string keys, through which leaf
/// actions exchange data.
///
/// A read names the type it expects. It finds nothing under a key that was
/// never written, and nothing where the value under the key is of another
/// type.
pub struct Blackboard {
    slots: StringHashMap<usize>,
    cells: Vec<Erased>,
}

impl Blackboard {
    /// Every key has a cell of its own.
    pub closed spec fn wf(&self) -> bool {
        &&& forall|key: Seq<char>| #[trigger]
            self.slots@.contains_key(key) ==> self.slots@[key] < self.cells@.len()
        &&& forall|one: Seq<char>, other: Seq<char>|
            #![trigger self.slots@[one], self.slots@[other]]
            self.slots@.contains_key(one) && self.slots@.contains_key(other) && self.slots@[one]
                == self.slots@[other] ==> one == other
    }

    /// What the blackboard holds: the cell under each key that has been
    /// written.
    pub closed spec fn view(&self) -> Map<Seq<char>, Erased> {
        Map::new(
            |key: Seq<char>| self.slots@.contains_key(key),
            |key: Seq<char>| self.cells@[self.slots@[key] as int],
        )
    }

    /// An empty blackboard.
    pub fn new() -> (blackboard: Self)
        ensures
            blackboard.wf(),
            blackboard@ == Map::<Seq<char>, Erased>::empty(),
    {
        let blackboard = Blackboard { slots: StringHashMap::new(), cells: Vec::new() };
        blackboard
    }

    /// Puts `data` under `key`, in place of what was there: the cell under
    /// `key` is now one made from `data`. The new value may be of another
    /// type than the old one. Every other key keeps its cell.
    pub fn write<T>(&mut self, key: String, data: T) where T: 'static
        requires
            old(self).wf(),
        ensures
            final(self).wf(),
            final(self)@.dom() == old(self)@.dom().insert(key@),
            made_from(data, final(self)@[key@]),
            forall|other: Seq<char>|
                other != key@ && old(self)@.contains_key(other) ==> #[trigger] final(self)@[other]
                    == old(self)@[other],
    {
        let cell = erase(data);
        let known = match self.slots.get(key.as_str()) {
            Some(slot) => Some(*slot),
            None => None,
        };
        match known {
            Some(slot) => {
                self.cells[slot] = cell;
            },
            None => {
                let slot: usize = self.cells.len();
                self.cells.push(cell);
                self.slots.insert(key, slot);
            },
        }
    }

    /// A reference to the value under `key`, if there is one and it is of
    /// type `T`: nothing for a key that was never written, and for any other
    /// key what a look into its cell for a `T` gives. A value is found
    /// exactly if the key has a cell and that cell is one made from a value
    /// of type `T`, and it is that value.
    pub fn read_ref<T>(&self, key: &String) -> (value: Option<&T>) where T: 'static
        requires
            self.wf(),
        ensures
            value is Some <==> self@.contains_key(key@) && exists|data: T| #[trigger]
                made_from(data, self@[key@]),
            !self@.contains_key(key@) ==> value is None,
            self@.contains_key(key@) ==> looked_up(self@[key@], value),
            forall|data: T|
                self@.contains_key(key@) && #[trigger] made_from(data, self@[key@]) ==> value
                    == Some(&data),
            value matches Some(found) ==> made_from(*found, self@[key@]),
    {
        let value = match self.slots.get(key.as_str()) {
            Some(slot) => downcast_ref(&self.cells[*slot]),
            None => None,
        };
        proof {
            if let Some(found) = value {
                assert(made_from(*found, self@[key@]));
            }
        }
        value
    }

    /// A mutable reference to the value under `key`, if there is one and it
    /// is of type `T`: nothing for a key that was never written, and for any
    /// other key what a look into its cell for a mutable `T` gives. A value
    /// is found exactly if the key has a cell and that cell is one made from
    /// a value of type `T`, and it is that value. What is
    /// changed through the reference is what the next read finds: the cell
    /// under `key` is in the end what that look and the use of the reference
    /// leave. No key is added or removed, and every other key keeps its
    /// cell.
    pub fn read_ref_mut<T>(&mut self, key: &String) -> (value: Option<&mut T>) where T: 'static
        requires
            old(self).wf(),
        ensures
            value is Some <==> old(self)@.contains_key(key@) && exists|data: T| #[trigger]
                made_from(data, old(self)@[key@]),
            !old(self)@.contains_key(key@) ==> value is None,
            old(self)@.contains_key(key@) ==> exists|look: (&mut Erased,)|
                {
                    &&& *look.0 == old(self)@[key@]
                    &&& *final(look.0) == final(self)@[key@]
                    &&& #[trigger] looked_up_mut(look, value)
                },
            forall|data: T|
                old(self)@.contains_key(key@) && #[trigger] made_from(data, old(self)@[key@]) ==> (
                value matches Some(found) && *found == data),
            value matches Some(found) ==> made_from(*found, old(self)@[key@]) && made_from(
                *final(found),
                final(self)@[key@],
            ),
            value is None ==> final(self)@ == old(self)@,
            final(self).wf(),
            final(self)@.dom() == old(self)@.dom(),
            forall|other: Seq<char>|
                other != key@ && old(self)@.contains_key(other) ==> #[trigger] final(self)@[other]
                    == old(self)@[other],
    {
        let known = match self.slots.get(key.as_str()) {
            Some(slot) => Some(*slot),
            None => None,
        };
        match known {
            Some(slot) => {
                assert(self@[key@] == self.cells@[slot as int]);
                look_mut(&mut self.cells[slot])
            },
            None => None,
        }
    }

    /// A clone of the value under `key`, if there is one and it is of type
    /// `T`: nothing for a key that was never written, and for any other key
    /// a clone of what a look into its cell for a `T` finds, or nothing if
    /// that look finds nothing. A value is returned exactly if the key has
    /// a cell and that cell is one made from a value of type `T`, and it is
    /// a clone of that value.
    pub fn read<T>(&self, key: &String) -> (value: Option<T>) where T: Clone + 'static
        requires
            self.wf(),
        ensures
            value is Some <==> self@.contains_key(key@) && exists|data: T| #[trigger]
                made_from(data, self@[key@]),
            !self@.contains_key(key@) ==> value is None,
            self@.contains_key(key@) ==> exists|found: Option<&T>|
                {
                    &&& #[trigger] looked_up(self@[key@], found)
                    &&& found is None ==> value is None
                    &&& found matches Some(held) ==> value matches Some(copy)
                        && vstd::pervasive::cloned(*held, copy)
                },
            forall|data: T|
                self@.contains_key(key@) && #[trigger] made_from(data, self@[key@]) ==> (
                value matches Some(copy) && vstd::pervasive::cloned(data, copy)),
    {
        self.read_ref(key).cloned()
    }
}

impl Default for Blackboard {
    /// An empty blackboard.
    fn default() -> (blackboard: Self)
        ensures
            blackboard.wf(),
            blackboard@ == Map::<Seq<char>, Erased>::empty(),
    {
        Blackboard::new()
    }
}

/// Where an action takes an input from: a value written into the schema, or
/// the blackboard key under which to look it up.
#[derive(Debug)]
pub enum Input<T> {
    Literal(T),
    Blackboard(String),
}

impl<T: Clone> Clone for Input<T> {
    fn clone(&self) -> (copy: Self)
        ensures
            self is Literal <==> copy is Literal,
            self matches Input::Literal(data) ==> vstd::pervasive::cloned(
                *data,
                copy->Literal_0,
            ),
            self matches Input::Blackboard(key) ==> copy->Blackboard_0@ == key@,
    {
        match self {
            Self::Literal(data) => Self::Literal(data.clone()),
            Self::Blackboard(key) => Self::Blackboard(key.clone()),
        }
    }
}

/// Where an action puts its output: the blackboard key to write it under.
#[derive(Debug, Clone)]
pub enum Output {
    Blackboard(String),
}

} // verus!
