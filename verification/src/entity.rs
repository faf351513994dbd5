//! Typed sub-index of entities (players, vehicles) by network id.

use vstd::prelude::*;

verus! {

broadcast use vstd::std_specs::hash::group_hash_axioms;

use crate::types::{EntityId, ManagedObject};
use std::collections::HashMap;

/// Derived view over the identity pool: entity network id to the
/// managed object carrying it. Never a source of truth; kept
/// consistent with the pool on every insert and remove.
pub struct EntityManager {
    pub entities: HashMap<EntityId, ManagedObject>,
}

impl View for EntityManager {
    type V = Map<EntityId, ManagedObject>;

    open spec fn view(&self) -> Map<EntityId, ManagedObject> {
        self.entities@
    }
}

impl EntityManager {
    /// Empty index.
    pub fn new() -> (r: EntityManager)
        ensures
            r@ == Map::<EntityId, ManagedObject>::empty(),
    {
        EntityManager { entities: HashMap::new() }
    }

    /// Records an entity under its network id.
    pub fn on_create(&mut self, id: EntityId, entity: ManagedObject)
        ensures
            final(self)@ == old(self)@.insert(id, entity),
    {
        self.entities.insert(id, entity);
    }

    /// Removes the entity registered under a network id.
    pub fn on_destroy(&mut self, id: EntityId)
        ensures
            final(self)@ == old(self)@.remove(id),
    {
        self.entities.remove(&id);
    }

    /// Looks an entity up by network id; a miss is `None`.
    pub fn get_by_id(&self, id: EntityId) -> (r: Option<ManagedObject>)
        ensures
            r == (if self@.contains_key(id) {
                Some(self@[id])
            } else {
                None::<ManagedObject>
            }),
    {
        match self.entities.get(&id) {
            Some(entity) => Some(*entity),
            None => None,
        }
    }
}

} // verus!
