//! Plain value types shared by the runtime components.

use vstd::prelude::*;

verus! {

/// Address of an engine-owned object, as handed to the runtime by the
/// engine's creation callback. The runtime never dereferences it; it is
/// only an identity key into the pool.
pub type RawBaseObjectPointer = u64;

/// Network id of an entity (player, vehicle), assigned by the engine.
pub type EntityId = u16;

/// The closed set of object kinds the engine reports, plus a default
/// arm for kinds this runtime does not manage.
#[derive(Clone, Copy, PartialEq, Eq, Structural, Debug)]
pub enum BaseObjectType {
    Player,
    Vehicle,
    Marker,
    VirtualEntityGroup,
    Unknown,
}

impl BaseObjectType {
    /// Kinds that carry a network id and live in the entity sub-index.
    pub open spec fn spec_is_entity(self) -> bool {
        self == BaseObjectType::Player || self == BaseObjectType::Vehicle
    }

    #[verifier::when_used_as_spec(spec_is_entity)]
    pub fn is_entity(self) -> (r: bool)
        ensures
            r == self.spec_is_entity(),
    {
        match self {
            BaseObjectType::Player => true,
            BaseObjectType::Vehicle => true,
            _ => false,
        }
    }
}

/// One managed object as recorded in the identity pool: the engine
/// handle it wraps, its kind, and the network id used by the typed
/// sub-indices when the kind is an entity kind.
#[derive(Clone, Copy, PartialEq, Eq, Structural, Debug)]
pub struct ManagedObject {
    pub ptr: RawBaseObjectPointer,
    pub base_type: BaseObjectType,
    pub entity_id: EntityId,
}

/// What a creation callback did.
#[derive(Clone, Copy, PartialEq, Eq, Structural, Debug)]
pub enum CreateOutcome {
    /// The object was registered in the pool and its sub-indices.
    Created,
    /// A creation was already being processed; the nested call was a no-op.
    SkippedReentrant,
    /// The handle was already registered; the operation was aborted.
    DuplicateHandle,
    /// An entity with this network id is already registered; the
    /// operation was aborted.
    DuplicateEntityId,
    /// The kind is not managed by this runtime; nothing was registered.
    UnsupportedType,
}

/// What a destruction callback did.
#[derive(Clone, Copy, PartialEq, Eq, Structural, Debug)]
pub enum DestroyOutcome {
    /// The object was removed from the pool and every sub-index.
    Destroyed,
    /// A destruction was already being processed; the nested call was a no-op.
    SkippedReentrant,
    /// The handle was not in the pool; the call was a no-op.
    UnknownHandle,
}

/// Error for any operation against a handle whose destruction has
/// already been processed.
#[derive(Clone, Copy, PartialEq, Eq, Structural, Debug)]
pub struct ObjectNoLongerValid;

/// A dynamically typed argument of a local script event.
#[derive(PartialEq, Eq, Debug)]
pub enum ScriptValue {
    Nil,
    Bool(bool),
    Int(i64),
    Str(String),
    List(Vec<ScriptValue>),
}

} // verus!
