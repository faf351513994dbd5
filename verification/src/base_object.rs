//! Identity pool of managed objects and the reentrancy guards around
//! the creation and destruction protocols.

use vstd::prelude::*;

verus! {

broadcast use vstd::std_specs::hash::group_hash_axioms;

use crate::types::{ManagedObject, RawBaseObjectPointer};
use std::collections::HashMap;

/// Guard around the creation protocol: while one creation callback
/// is being processed, a nested creation callback must be skipped,
/// never processed recursively.
pub struct PendingBaseObjectCreation {
    pub processing: bool,
}

/// Guard around the destruction protocol, symmetric to
/// [`PendingBaseObjectCreation`].
pub struct PendingBaseObjectDeletion {
    pub processing: bool,
}

impl PendingBaseObjectCreation {
    /// Fresh guard, idle.
    pub fn new() -> (r: PendingBaseObjectCreation)
        ensures
            !r.processing,
    {
        PendingBaseObjectCreation { processing: false }
    }

    /// Attempts the idle-to-processing transition; reports whether it
    /// was this caller who acquired the guard.
    pub fn try_begin(&mut self) -> (acquired: bool)
        ensures
            acquired == !old(self).processing,
            final(self).processing,
    {
        let acquired = !self.processing;
        self.processing = true;
        acquired
    }

    /// Releases the guard back to idle.
    pub fn finish(&mut self)
        ensures
            !final(self).processing,
    {
        self.processing = false;
    }
}

impl PendingBaseObjectDeletion {
    /// Fresh guard, idle.
    pub fn new() -> (r: PendingBaseObjectDeletion)
        ensures
            !r.processing,
    {
        PendingBaseObjectDeletion { processing: false }
    }

    /// Attempts the idle-to-processing transition; reports whether it
    /// was this caller who acquired the guard.
    pub fn try_begin(&mut self) -> (acquired: bool)
        ensures
            acquired == !old(self).processing,
            final(self).processing,
    {
        let acquired = !self.processing;
        self.processing = true;
        acquired
    }

    /// Releases the guard back to idle.
    pub fn finish(&mut self)
        ensures
            !final(self).processing,
    {
        self.processing = false;
    }
}

/// The authoritative mapping from raw engine handle to managed
/// object. Keys are unique by construction: at most one managed
/// object ever exists per live handle.
pub struct BaseObjectManager {
    pub objects: HashMap<RawBaseObjectPointer, ManagedObject>,
}

impl View for BaseObjectManager {
    type V = Map<RawBaseObjectPointer, ManagedObject>;

    open spec fn view(&self) -> Map<RawBaseObjectPointer, ManagedObject> {
        self.objects@
    }
}

impl BaseObjectManager {
    /// Empty pool.
    pub fn new() -> (r: BaseObjectManager)
        ensures
            r@ == Map::<RawBaseObjectPointer, ManagedObject>::empty(),
    {
        BaseObjectManager { objects: HashMap::new() }
    }

    /// Whether a handle is currently registered.
    pub fn contains(&self, handle: RawBaseObjectPointer) -> (r: bool)
        ensures
            r == self@.contains_key(handle),
    {
        self.objects.contains_key(&handle)
    }

    /// Records the managed object for a newly created handle.
    pub fn on_create(&mut self, handle: RawBaseObjectPointer, object: ManagedObject)
        ensures
            final(self)@ == old(self)@.insert(handle, object),
    {
        self.objects.insert(handle, object);
    }

    /// Looks a handle up; misses are answered with `None`, never an
    /// error.
    pub fn get_by_handle(&self, handle: RawBaseObjectPointer) -> (r: Option<ManagedObject>)
        ensures
            r == (if self@.contains_key(handle) {
                Some(self@[handle])
            } else {
                None::<ManagedObject>
            }),
    {
        match self.objects.get(&handle) {
            Some(object) => Some(*object),
            None => None,
        }
    }

    /// Removes a handle from the pool.
    pub fn on_destroy(&mut self, handle: RawBaseObjectPointer)
        ensures
            final(self)@ == old(self)@.remove(handle),
    {
        self.objects.remove(&handle);
    }
}

} // verus!
