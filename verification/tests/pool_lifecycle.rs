//! Lifecycle tests: pool uniqueness, index consistency, reentrancy
//! skip, and stale access.

use resource_runtime::resource_impl::ResourceImpl;
use resource_runtime::types::{
    BaseObjectType, CreateOutcome, DestroyOutcome, ManagedObject, ObjectNoLongerValid,
};
use resource_runtime::wrapper::BaseObjectWrapper;

type Ctx = ResourceImpl<Box<dyn FnMut()>, Box<dyn FnMut()>, Box<dyn FnMut()>>;

#[test]
fn pool_holds_one_object_per_live_handle() {
    let mut ctx: Ctx = ResourceImpl::new();
    assert_eq!(
        ctx.__on_base_object_create(10, BaseObjectType::Player, 1),
        CreateOutcome::Created
    );
    assert_eq!(
        ctx.__on_base_object_create(20, BaseObjectType::Vehicle, 2),
        CreateOutcome::Created
    );
    assert_eq!(
        ctx.__on_base_object_create(30, BaseObjectType::Marker, 0),
        CreateOutcome::Created
    );
    assert_eq!(
        ctx.lookup_by_handle(10),
        Some(ManagedObject { ptr: 10, base_type: BaseObjectType::Player, entity_id: 1 })
    );
    assert_eq!(
        ctx.lookup_by_handle(20),
        Some(ManagedObject { ptr: 20, base_type: BaseObjectType::Vehicle, entity_id: 2 })
    );

    // A duplicate handle is a consistency error: the operation aborts
    // and the pool keeps the one existing object.
    assert_eq!(
        ctx.__on_base_object_create(10, BaseObjectType::Vehicle, 9),
        CreateOutcome::DuplicateHandle
    );
    assert_eq!(
        ctx.lookup_by_handle(10),
        Some(ManagedObject { ptr: 10, base_type: BaseObjectType::Player, entity_id: 1 })
    );
    assert_eq!(ctx.lookup_by_entity_id(9), None);

    // Destroy then re-create under the same handle: again exactly one
    // object per live handle.
    assert_eq!(ctx.__on_base_object_destroy(10), DestroyOutcome::Destroyed);
    assert_eq!(
        ctx.__on_base_object_create(10, BaseObjectType::Vehicle, 3),
        CreateOutcome::Created
    );
    assert_eq!(
        ctx.lookup_by_handle(10),
        Some(ManagedObject { ptr: 10, base_type: BaseObjectType::Vehicle, entity_id: 3 })
    );
}

#[test]
fn typed_indices_agree_with_pool() {
    let mut ctx: Ctx = ResourceImpl::new();
    ctx.__on_base_object_create(10, BaseObjectType::Player, 1);
    ctx.__on_base_object_create(20, BaseObjectType::Vehicle, 2);
    ctx.__on_base_object_create(30, BaseObjectType::Marker, 0);

    // Every sub-index entry names an object that is in the pool.
    let p = ctx.lookup_by_entity_id(1).expect("player indexed");
    assert_eq!(ctx.lookup_by_handle(p.ptr), Some(p));
    let v = ctx.lookup_by_entity_id(2).expect("vehicle indexed");
    assert_eq!(ctx.lookup_by_handle(v.ptr), Some(v));
    assert_eq!(ctx.player_base_object_map.get(10), Some(1));
    assert_eq!(ctx.vehicle_base_object_map.get(20), Some(2));

    // And in the other direction: indexed kinds are in their indices,
    // non-entity kinds are not.
    assert_eq!(ctx.player_base_object_map.get(20), None);
    assert_eq!(ctx.vehicle_base_object_map.get(10), None);
    assert_eq!(ctx.player_base_object_map.get(30), None);
    assert_eq!(ctx.vehicle_base_object_map.get(30), None);

    // An entity id already in use aborts the creation entirely: no
    // pool entry, no index entry.
    assert_eq!(
        ctx.__on_base_object_create(40, BaseObjectType::Player, 1),
        CreateOutcome::DuplicateEntityId
    );
    assert_eq!(ctx.lookup_by_handle(40), None);
    assert_eq!(ctx.player_base_object_map.get(40), None);
}

#[test]
fn nested_create_is_skipped() {
    let mut ctx: Ctx = ResourceImpl::new();

    // The outer creation protocol acquires the guard...
    assert!(ctx.base_object_creation.try_begin());

    // ...and a creation callback arriving while it is held (the
    // engine synchronously reporting another object mid-protocol) is
    // a no-op: nothing is registered.
    assert_eq!(
        ctx.__on_base_object_create(77, BaseObjectType::Player, 7),
        CreateOutcome::SkippedReentrant
    );
    assert_eq!(ctx.lookup_by_handle(77), None);
    assert_eq!(ctx.lookup_by_entity_id(7), None);

    // The outer protocol completes and releases the guard; its own
    // object is the only one registered, exactly once.
    ctx.base_object_creation.finish();
    assert_eq!(
        ctx.__on_base_object_create(50, BaseObjectType::Player, 5),
        CreateOutcome::Created
    );
    assert!(ctx.lookup_by_handle(50).is_some());
    assert_eq!(ctx.lookup_by_handle(77), None);

    // The guard ends idle: later creations are processed normally.
    assert_eq!(
        ctx.__on_base_object_create(77, BaseObjectType::Player, 7),
        CreateOutcome::Created
    );
}

#[test]
fn nested_destroy_is_skipped() {
    let mut ctx: Ctx = ResourceImpl::new();
    ctx.__on_base_object_create(10, BaseObjectType::Player, 1);
    assert!(ctx.base_object_deletion.try_begin());
    assert_eq!(ctx.__on_base_object_destroy(10), DestroyOutcome::SkippedReentrant);
    assert!(ctx.lookup_by_handle(10).is_some());
    ctx.base_object_deletion.finish();
    assert_eq!(ctx.__on_base_object_destroy(10), DestroyOutcome::Destroyed);
}

#[test]
fn stale_handle_access_fails() {
    let mut ctx: Ctx = ResourceImpl::new();
    ctx.__on_base_object_create(10, BaseObjectType::Player, 1);
    ctx.__on_base_object_create(20, BaseObjectType::Vehicle, 2);
    assert_eq!(ctx.__on_base_object_destroy(10), DestroyOutcome::Destroyed);

    // Every lookup misses, and every index entry derived from the
    // handle is gone.
    assert_eq!(ctx.lookup_by_handle(10), None);
    assert_eq!(ctx.lookup_by_entity_id(1), None);
    assert_eq!(ctx.player_base_object_map.get(10), None);

    // Destroying an unknown handle is a logged no-op, not an error.
    assert_eq!(ctx.__on_base_object_destroy(10), DestroyOutcome::UnknownHandle);

    // The untouched vehicle is still fully indexed.
    assert!(ctx.lookup_by_handle(20).is_some());
    assert_eq!(ctx.vehicle_base_object_map.get(20), Some(2));
}

#[test]
fn unmanaged_kind_registers_nothing() {
    let mut ctx: Ctx = ResourceImpl::new();
    assert_eq!(
        ctx.__on_base_object_create(99, BaseObjectType::Unknown, 9),
        CreateOutcome::UnsupportedType
    );
    assert_eq!(ctx.lookup_by_handle(99), None);
    assert_eq!(ctx.lookup_by_entity_id(9), None);
    // The guard was released: the next creation is processed.
    assert_eq!(
        ctx.__on_base_object_create(99, BaseObjectType::Marker, 0),
        CreateOutcome::Created
    );
}

#[test]
fn wrapper_reports_object_no_longer_valid() {
    let mut w: BaseObjectWrapper<()> = BaseObjectWrapper::new(100, 200, ());
    assert_eq!(w.ptr(), Ok(100));
    assert_eq!(w.base_ptr(), Ok(200));
    assert_eq!(w.internal_destroy(), Ok(()));
    assert_eq!(w.ptr(), Err(ObjectNoLongerValid));
    assert_eq!(w.base_ptr(), Err(ObjectNoLongerValid));
    assert_eq!(w.internal_destroy(), Err(ObjectNoLongerValid));
}
