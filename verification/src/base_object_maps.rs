//! Per-kind sub-indices over the identity pool, keyed by raw handle.

use vstd::prelude::*;

verus! {

broadcast use vstd::std_specs::hash::group_hash_axioms;

use crate::types::{EntityId, RawBaseObjectPointer};
use std::collections::HashMap;

/// Derived view of the pool restricted to players: raw handle to
/// network id.
pub struct PlayerBaseObjectMap {
    pub map: HashMap<RawBaseObjectPointer, EntityId>,
}

/// Derived view of the pool restricted to vehicles: raw handle to
/// network id.
pub struct VehicleBaseObjectMap {
    pub map: HashMap<RawBaseObjectPointer, EntityId>,
}

impl View for PlayerBaseObjectMap {
    type V = Map<RawBaseObjectPointer, EntityId>;

    open spec fn view(&self) -> Map<RawBaseObjectPointer, EntityId> {
        self.map@
    }
}

impl View for VehicleBaseObjectMap {
    type V = Map<RawBaseObjectPointer, EntityId>;

    open spec fn view(&self) -> Map<RawBaseObjectPointer, EntityId> {
        self.map@
    }
}

impl PlayerBaseObjectMap {
    /// Empty index.
    pub fn new() -> (r: PlayerBaseObjectMap)
        ensures
            r@ == Map::<RawBaseObjectPointer, EntityId>::empty(),
    {
        PlayerBaseObjectMap { map: HashMap::new() }
    }

    /// Records a player handle under its network id.
    pub fn add_base_object(&mut self, handle: RawBaseObjectPointer, id: EntityId)
        ensures
            final(self)@ == old(self)@.insert(handle, id),
    {
        self.map.insert(handle, id);
    }

    /// Removes a player handle from the index.
    pub fn remove_base_object(&mut self, handle: RawBaseObjectPointer)
        ensures
            final(self)@ == old(self)@.remove(handle),
    {
        self.map.remove(&handle);
    }

    /// The network id registered for a handle, if any.
    pub fn get(&self, handle: RawBaseObjectPointer) -> (r: Option<EntityId>)
        ensures
            r == (if self@.contains_key(handle) {
                Some(self@[handle])
            } else {
                None::<EntityId>
            }),
    {
        match self.map.get(&handle) {
            Some(id) => Some(*id),
            None => None,
        }
    }
}

impl VehicleBaseObjectMap {
    /// Empty index.
    pub fn new() -> (r: VehicleBaseObjectMap)
        ensures
            r@ == Map::<RawBaseObjectPointer, EntityId>::empty(),
    {
        VehicleBaseObjectMap { map: HashMap::new() }
    }

    /// Records a vehicle handle under its network id.
    pub fn add_base_object(&mut self, handle: RawBaseObjectPointer, id: EntityId)
        ensures
            final(self)@ == old(self)@.insert(handle, id),
    {
        self.map.insert(handle, id);
    }

    /// Removes a vehicle handle from the index.
    pub fn remove_base_object(&mut self, handle: RawBaseObjectPointer)
        ensures
            final(self)@ == old(self)@.remove(handle),
    {
        self.map.remove(&handle);
    }

    /// The network id registered for a handle, if any.
    pub fn get(&self, handle: RawBaseObjectPointer) -> (r: Option<EntityId>)
        ensures
            r == (if self@.contains_key(handle) {
                Some(self@[handle])
            } else {
                None::<EntityId>
            }),
    {
        match self.map.get(&handle) {
            Some(id) => Some(*id),
            None => None,
        }
    }
}

} // verus!
