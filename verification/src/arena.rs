//! Arena storage and the typed handles that address it.

use core::marker::PhantomData;
use vstd::prelude::*;

verus! {

/// A typed handle into one arena.
///
/// A handle is an opaque index tagged with the type of entity it refers to,
/// so handles for different entity kinds cannot be interchanged. Handles are
/// minted only by the owning arena, are never reused for another entity, and
/// stay valid for the lifetime of the owning graph. The view of a handle is
/// the index of its entity in the arena.
#[derive(Debug)]
pub struct Id<T> {
    index: usize,
    phantom: PhantomData<T>,
}

impl<T> PartialEq for Id<T> {
    fn eq(&self, other: &Self) -> bool {
        self.index == other.index
    }
}

impl<T> Eq for Id<T> {}

impl<T> vstd::std_specs::cmp::PartialEqSpecImpl for Id<T> {
    open spec fn obeys_eq_spec() -> bool {
        true
    }

    open spec fn eq_spec(&self, other: &Id<T>) -> bool {
        self@ == other@
    }
}

impl<T> View for Id<T> {
    type V = int;

    closed spec fn view(&self) -> int {
        self.index as int
    }
}

impl<T> Id<T> {
    /// Wraps a raw index; only the storage in this module mints handles.
    pub(crate) fn new(index: usize) -> (id: Self)
        ensures
            id@ == index,
    {
        Id { index, phantom: PhantomData }
    }

    /// The raw index, for the storage in this module to address entities by.
    pub(crate) fn index(&self) -> (index: usize)
        ensures
            index == self@,
    {
        self.index
    }
}

/// Every handle addresses a position in an arena, so its view is a
/// nonnegative index.
pub broadcast proof fn lemma_id_nonnegative<T>(id: Id<T>)
    ensures
        #[trigger] id@ >= 0,
{
}

impl<T> Clone for Id<T> {
    fn clone(&self) -> (cloned: Self)
        ensures
            cloned == *self,
    {
        Id { index: self.index, phantom: PhantomData }
    }
}

impl<T> Copy for Id<T> {}

/// Dense arena storage keyed by typed handles.
///
/// Entities sit in insertion order; the handle `insert` returns addresses the
/// inserted entity and is never handed out again. The view is the sequence of
/// all entities inserted so far.
#[derive(Debug)]
pub struct DenseMap<T> {
    storage: Vec<T>,
}

impl<T> View for DenseMap<T> {
    type V = Seq<T>;

    closed spec fn view(&self) -> Seq<T> {
        self.storage@
    }
}

impl<T> DenseMap<T> {
    pub fn new() -> (dense: Self)
        ensures
            dense@ == Seq::<T>::empty(),
    {
        DenseMap { storage: Vec::new() }
    }

    /// The number of entities stored so far.
    pub fn len(&self) -> (length: usize)
        ensures
            length == self@.len(),
    {
        self.storage.len()
    }

    /// The handle that the next call to `insert` will return.
    pub(crate) fn next_id(&self) -> (id: Id<T>)
        ensures
            id@ == self@.len(),
    {
        Id::new(self.storage.len())
    }

    /// Stores one entity and returns the handle that now addresses it.
    pub fn insert(&mut self, element: T) -> (id: Id<T>)
        ensures
            id@ == old(self)@.len(),
            final(self)@ == old(self)@.push(element),
    {
        let id = Id::new(self.storage.len());
        self.storage.push(element);
        id
    }

    /// Reads the entity a handle addresses.
    pub fn get(&self, id: Id<T>) -> (element: &T)
        requires
            id@ < self@.len(),
        ensures
            *element == self@[id@],
    {
        &self.storage[id.index()]
    }

    /// Swaps the entity a handle addresses for a new one, returning the old.
    pub fn replace(&mut self, id: Id<T>, element: T) -> (previous: T)
        requires
            id@ < old(self)@.len(),
        ensures
            previous == old(self)@[id@],
            final(self)@ == old(self)@.update(id@, element),
    {
        let i: usize = id.index();
        self.storage.push(element);
        let previous = self.storage.swap_remove(i);
        proof {
            assert(self@ =~= old(self)@.update(id@, element));
        }
        previous
    }
}

/// Sparse auxiliary storage keyed by another arena's handles.
///
/// Holds per-entity data that is not intrinsic to the entity itself (here:
/// the result list of each instruction). A slot exists only for keys that
/// were inserted; the view maps each such key's index to the stored datum.
#[derive(Debug)]
pub struct SecondaryMap<K, V> {
    storage: Vec<Option<V>>,
    phantom: PhantomData<K>,
}

impl<K, V> View for SecondaryMap<K, V> {
    type V = Map<int, V>;

    closed spec fn view(&self) -> Map<int, V> {
        Map::new(
            |i: int| 0 <= i < self.storage@.len() && self.storage@[i] is Some,
            |i: int| self.storage@[i]->0,
        )
    }
}

impl<K, V> SecondaryMap<K, V> {
    pub fn new() -> (secondary: Self)
        ensures
            secondary@ == Map::<int, V>::empty(),
    {
        let secondary = SecondaryMap { storage: Vec::new(), phantom: PhantomData };
        proof {
            assert(secondary@ =~= Map::<int, V>::empty());
        }
        secondary
    }

    /// Stores a datum for a key, replacing any datum stored before.
    pub fn insert(&mut self, key: Id<K>, value: V)
        ensures
            final(self)@ == old(self)@.insert(key@, value),
    {
        let i: usize = key.index();
        while self.storage.len() <= i
            invariant
                self@ == old(self)@,
                i == key@,
            decreases i + 1 - self.storage@.len(),
        {
            self.storage.push(None);
            proof {
                assert(self@ =~= old(self)@);
            }
        }
        self.storage.push(Some(value));
        let _ = self.storage.swap_remove(i);
        proof {
            assert(self@ =~= old(self)@.insert(key@, value));
        }
    }

    /// Reads the datum stored for a key, if one was inserted.
    pub fn get(&self, key: Id<K>) -> (result: Option<&V>)
        ensures
            self@.contains_key(key@) ==> (result matches Some(value) && *value == self@[key@]),
            !self@.contains_key(key@) ==> result is None,
    {
        let i: usize = key.index();
        if i < self.storage.len() {
            self.storage[i].as_ref()
        } else {
            None
        }
    }

    /// Removes and returns the datum stored for a key, if one was inserted.
    pub fn take(&mut self, key: Id<K>) -> (taken: Option<V>)
        ensures
            final(self)@ == old(self)@.remove(key@),
            old(self)@.contains_key(key@) ==> (taken matches Some(value) && value == old(
                self,
            )@[key@]),
            !old(self)@.contains_key(key@) ==> taken is None,
    {
        let i: usize = key.index();
        if i < self.storage.len() {
            self.storage.push(None);
            let taken = self.storage.swap_remove(i);
            proof {
                assert(self@ =~= old(self)@.remove(key@));
            }
            taken
        } else {
            proof {
                assert(self@ =~= old(self)@.remove(key@));
            }
            None
        }
    }
}

} // verus!
