//! The runtime context: one instance of each component, and the
//! entry points the engine drives (`__on_tick`,
//! `__on_base_object_create`, `__on_base_object_destroy`,
//! `__on_sdk_event`) together with the calls user code makes back
//! into the runtime (`timers_create`, `on`, `add_event_handler`,
//! `emit_local_event`).
//!
//! The context is an explicit value passed to every entry point; the
//! ambient per-engine instance, where the embedding boundary cannot
//! pass one, lives outside this library and hands the context in.

use vstd::prelude::*;

verus! {

use crate::base_object::{
    BaseObjectManager,
    PendingBaseObjectCreation,
    PendingBaseObjectDeletion,
};
use crate::base_object_maps::{PlayerBaseObjectMap, VehicleBaseObjectMap};
use crate::entity::EntityManager;
use crate::events::{kind_handlers, kinds_distinct, EventManager, SdkEventType};
use crate::local_script_events::{handlers_for, names_distinct, LocalEventManager};
use crate::timers::{
    create,
    entries_bounded,
    ids_increasing,
    spec_fired,
    spec_process,
    timers_wf,
    ScheduleState,
    TimerId,
    TimerManager,
    MAX_SCHEDULE_NOW,
    MAX_TIMER_INTERVAL_MS,
};
use crate::types::{
    BaseObjectType,
    CreateOutcome,
    DestroyOutcome,
    EntityId,
    ManagedObject,
    RawBaseObjectPointer,
};

/// The root of one loaded resource, as the embedding boundary sees
/// it.
pub struct MainResource {
    pub path: String,
}

/// The runtime context of one resource: the timer scheduler, the
/// identity pool with its guards and sub-indices, and the two event
/// registries. `C` is the timer callback type, `H` the local event
/// handler type, `N` the native event handler type; all three are
/// opaque to the runtime.
pub struct ResourceImpl<C, H, N> {
    pub timers: TimerManager<C>,
    pub timer_schedule_state: ScheduleState<C>,
    pub base_object_creation: PendingBaseObjectCreation,
    pub base_object_deletion: PendingBaseObjectDeletion,
    pub base_objects: BaseObjectManager,
    pub entities: EntityManager,
    pub events: EventManager<N>,
    pub player_base_object_map: PlayerBaseObjectMap,
    pub vehicle_base_object_map: VehicleBaseObjectMap,
    pub local_script_events: LocalEventManager<H>,
}

/// The object-lifecycle state of a runtime context, as mathematical
/// maps: the identity pool, the typed sub-indices over it, and the
/// two protocol guards.
pub ghost struct PoolModel {
    pub pool: Map<RawBaseObjectPointer, ManagedObject>,
    pub entities: Map<EntityId, ManagedObject>,
    pub players: Map<RawBaseObjectPointer, EntityId>,
    pub vehicles: Map<RawBaseObjectPointer, EntityId>,
    pub creating: bool,
    pub deleting: bool,
}

/// Consistency of the pool and its derived views.
pub open spec fn model_wf(m: PoolModel) -> bool {
    &&& forall|h: RawBaseObjectPointer|
        #[trigger] m.pool.contains_key(h) ==> m.pool[h].ptr == h && m.pool[h].base_type
            != BaseObjectType::Unknown
    &&& forall|id: EntityId|
        #[trigger] m.entities.contains_key(id) ==> {
            let o = m.entities[id];
            &&& o.entity_id == id
            &&& o.base_type.spec_is_entity()
            &&& m.pool.contains_key(o.ptr)
            &&& m.pool[o.ptr] == o
        }
    &&& forall|h: RawBaseObjectPointer|
        #[trigger] m.pool.contains_key(h) && m.pool[h].base_type.spec_is_entity() ==> {
            &&& m.entities.contains_key(m.pool[h].entity_id)
            &&& m.entities[m.pool[h].entity_id] == m.pool[h]
        }
    &&& forall|h: RawBaseObjectPointer|
        #[trigger] m.players.contains_key(h) <==> (m.pool.contains_key(h) && m.pool[h].base_type
            == BaseObjectType::Player)
    &&& forall|h: RawBaseObjectPointer|
        #[trigger] m.players.contains_key(h) ==> m.players[h] == m.pool[h].entity_id
    &&& forall|h: RawBaseObjectPointer|
        #[trigger] m.vehicles.contains_key(h) <==> (m.pool.contains_key(h) && m.pool[h].base_type
            == BaseObjectType::Vehicle)
    &&& forall|h: RawBaseObjectPointer|
        #[trigger] m.vehicles.contains_key(h) ==> m.vehicles[h] == m.pool[h].entity_id
}

impl<C, H, N> ResourceImpl<C, H, N> {
    /// The object-lifecycle state of this context.
    pub open spec fn model(self) -> PoolModel {
        PoolModel {
            pool: self.base_objects@,
            entities: self.entities@,
            players: self.player_base_object_map@,
            vehicles: self.vehicle_base_object_map@,
            creating: self.base_object_creation.processing,
            deleting: self.base_object_deletion.processing,
        }
    }

    /// Well-formedness of the whole context: the scheduler's bounds,
    /// unique registry keys, and pool/sub-index consistency.
    pub open spec fn wf(self) -> bool {
        &&& timers_wf(self.timers, self.timer_schedule_state)
        &&& names_distinct(self.local_script_events.handlers@)
        &&& kinds_distinct(self.events.handlers@)
        &&& model_wf(self.model())
    }

    /// Fresh context: everything empty, both guards idle, clock at
    /// zero.
    pub fn new() -> (r: ResourceImpl<C, H, N>)
        ensures
            r.wf(),
            r.model().pool == Map::<RawBaseObjectPointer, ManagedObject>::empty(),
            r.model().entities == Map::<EntityId, ManagedObject>::empty(),
            r.model().players == Map::<RawBaseObjectPointer, EntityId>::empty(),
            r.model().vehicles == Map::<RawBaseObjectPointer, EntityId>::empty(),
            !r.model().creating,
            !r.model().deleting,
            r.timers.entries@.len() == 0,
            r.timer_schedule_state.now == 0,
            r.timer_schedule_state.next_timer_id == 0,
            r.timer_schedule_state.pending@.len() == 0,
            r.events.handlers@.len() == 0,
            r.local_script_events.handlers@.len() == 0,
    {
        ResourceImpl {
            timer_schedule_state: ScheduleState::new(),
            timers: TimerManager::new(),
            base_object_creation: PendingBaseObjectCreation::new(),
            base_object_deletion: PendingBaseObjectDeletion::new(),
            base_objects: BaseObjectManager::new(),
            entities: EntityManager::new(),
            events: EventManager::new(),
            player_base_object_map: PlayerBaseObjectMap::new(),
            vehicle_base_object_map: VehicleBaseObjectMap::new(),
            local_script_events: LocalEventManager::new(),
        }
    }

    /// Looks a managed object up by its raw engine handle; `None` on
    /// a miss and after the handle's destruction has been processed.
    pub fn lookup_by_handle(&self, handle: RawBaseObjectPointer) -> (r: Option<ManagedObject>)
        ensures
            r == (if self.model().pool.contains_key(handle) {
                Some(self.model().pool[handle])
            } else {
                None::<ManagedObject>
            }),
    {
        self.base_objects.get_by_handle(handle)
    }

    /// Looks an entity up by network id; `None` on a miss.
    pub fn lookup_by_entity_id(&self, id: EntityId) -> (r: Option<ManagedObject>)
        ensures
            r == (if self.model().entities.contains_key(id) {
                Some(self.model().entities[id])
            } else {
                None::<ManagedObject>
            }),
    {
        self.entities.get_by_id(id)
    }

    /// One engine tick: processes the timer scheduler at the given
    /// clock reading and returns the ids of the timers that fire, in
    /// registration order. The caller invokes each callback through
    /// `take_callback` / `restore_callback` on the scheduler, so no
    /// borrow of the context is held while a callback runs.
    pub fn __on_tick(&mut self, now: u64) -> (fired: Vec<TimerId>)
        requires
            now <= MAX_SCHEDULE_NOW,
            timers_wf(old(self).timers, old(self).timer_schedule_state),
        ensures
            timers_wf(final(self).timers, final(self).timer_schedule_state),
            final(self).timer_schedule_state.now == (if now >= old(self).timer_schedule_state.now {
                now
            } else {
                old(self).timer_schedule_state.now
            }),
            final(self).timer_schedule_state.next_timer_id == old(self).timer_schedule_state.next_timer_id,
            final(self).timer_schedule_state.pending@.len() == 0,
            final(self).timers.entries@ == spec_process(
                old(self).timers.entries@ + old(self).timer_schedule_state.pending@,
                final(self).timer_schedule_state.now,
            ),
            fired@ == spec_fired(
                old(self).timers.entries@ + old(self).timer_schedule_state.pending@,
                final(self).timer_schedule_state.now,
            ),
            final(self).base_objects == old(self).base_objects,
            final(self).entities == old(self).entities,
            final(self).player_base_object_map == old(self).player_base_object_map,
            final(self).vehicle_base_object_map == old(self).vehicle_base_object_map,
            final(self).base_object_creation == old(self).base_object_creation,
            final(self).base_object_deletion == old(self).base_object_deletion,
            final(self).events == old(self).events,
            final(self).local_script_events == old(self).local_script_events,
    {
        self.timers.process_timers(&mut self.timer_schedule_state, now)
    }

    /// Cancels a timer by id; it never fires again, and if the
    /// cancellation comes from within the timer's own callback the
    /// entry is removed once that callback is returned.
    pub fn cancel_timer(&mut self, id: TimerId)
        ensures
            final(self).timers.entries@.len() == old(self).timers.entries@.len(),
            forall|k: int|
                0 <= k < old(self).timers.entries@.len() ==> final(self).timers.entries@[k] == (if
                old(self).timers.entries@[k].id == id {
                    (crate::timers::TimerEntry {
                        status: crate::timers::TimerStatus::Cancelled,
                        ..old(self).timers.entries@[k]
                    })
                } else {
                    old(self).timers.entries@[k]
                }),
            final(self).timer_schedule_state.now == old(self).timer_schedule_state.now,
            final(self).timer_schedule_state.next_timer_id == old(self).timer_schedule_state.next_timer_id,
            final(self).timer_schedule_state.pending@.len() == old(self).timer_schedule_state.pending@.len(),
            forall|k: int|
                0 <= k < old(self).timer_schedule_state.pending@.len() ==> final(self).timer_schedule_state.pending@[k] == (if old(self).timer_schedule_state.pending@[k].id == id {
                    (crate::timers::TimerEntry {
                        status: crate::timers::TimerStatus::Cancelled,
                        ..old(self).timer_schedule_state.pending@[k]
                    })
                } else {
                    old(self).timer_schedule_state.pending@[k]
                }),
            timers_wf(old(self).timers, old(self).timer_schedule_state) ==> timers_wf(
                final(self).timers,
                final(self).timer_schedule_state,
            ),
            final(self).base_objects == old(self).base_objects,
            final(self).entities == old(self).entities,
            final(self).player_base_object_map == old(self).player_base_object_map,
            final(self).vehicle_base_object_map == old(self).vehicle_base_object_map,
            final(self).base_object_creation == old(self).base_object_creation,
            final(self).base_object_deletion == old(self).base_object_deletion,
            final(self).events == old(self).events,
            final(self).local_script_events == old(self).local_script_events,
    {
        crate::timers::cancel(&mut self.timers, &mut self.timer_schedule_state, id);
    }

    /// Registers a handler for a native engine event kind.
    pub fn add_event_handler(&mut self, event_type: SdkEventType, handler: N)
        requires
            kinds_distinct(old(self).events.handlers@),
        ensures
            kinds_distinct(final(self).events.handlers@),
            kind_handlers(final(self).events.handlers@, event_type) == kind_handlers(
                old(self).events.handlers@,
                event_type,
            ).push(handler),
            forall|other: SdkEventType|
                other != event_type ==> #[trigger] kind_handlers(
                    final(self).events.handlers@,
                    other,
                ) == kind_handlers(old(self).events.handlers@, other),
            final(self).timers == old(self).timers,
            final(self).timer_schedule_state == old(self).timer_schedule_state,
            final(self).base_objects == old(self).base_objects,
            final(self).entities == old(self).entities,
            final(self).player_base_object_map == old(self).player_base_object_map,
            final(self).vehicle_base_object_map == old(self).vehicle_base_object_map,
            final(self).base_object_creation == old(self).base_object_creation,
            final(self).base_object_deletion == old(self).base_object_deletion,
            final(self).local_script_events == old(self).local_script_events,
    {
        self.events.add_handler(event_type, handler);
    }

    /// A native engine event arrived: hands out the dispatch plan for
    /// its kind -- every registered handler, in registration order.
    /// The caller decodes the engine-owned payload (once, and only if
    /// the plan is non-empty), invokes each handler with the decoded
    /// view, catching failures per handler, and returns the handlers
    /// through the registry's `restore_handlers`. An unknown kind
    /// yields an empty plan and is dropped.
    pub fn __on_sdk_event(&mut self, event_type: SdkEventType) -> (plan: Vec<N>)
        requires
            kinds_distinct(old(self).events.handlers@),
        ensures
            kinds_distinct(final(self).events.handlers@),
            plan@ == kind_handlers(old(self).events.handlers@, event_type),
            kind_handlers(final(self).events.handlers@, event_type) == Seq::<N>::empty(),
            forall|other: SdkEventType|
                other != event_type ==> #[trigger] kind_handlers(
                    final(self).events.handlers@,
                    other,
                ) == kind_handlers(old(self).events.handlers@, other),
            final(self).timers == old(self).timers,
            final(self).timer_schedule_state == old(self).timer_schedule_state,
            final(self).base_objects == old(self).base_objects,
            final(self).entities == old(self).entities,
            final(self).player_base_object_map == old(self).player_base_object_map,
            final(self).vehicle_base_object_map == old(self).vehicle_base_object_map,
            final(self).base_object_creation == old(self).base_object_creation,
            final(self).base_object_deletion == old(self).base_object_deletion,
            final(self).local_script_events == old(self).local_script_events,
    {
        self.events.take_handlers(event_type)
    }
}

/// Applies a closure to a shared view of the runtime context and
/// hands its result back.
pub fn with_resource_impl<C, H, N, F, R>(instance: &ResourceImpl<C, H, N>, f: F) -> (r: R) where
    F: FnOnce(&ResourceImpl<C, H, N>) -> R,

    requires
        call_requires(f, (instance,)),
    ensures
        call_ensures(f, (instance,), r),
{
    f(instance)
}

/// Schedules a timer on the context's scheduler: the callback first
/// fires `millis` after the scheduler's current clock and repeats
/// every `millis` unless `once` (a zero interval means "fire on the
/// next tick only"). Returns the new timer's id.
pub fn timers_create<C, H, N>(
    resource: &mut ResourceImpl<C, H, N>,
    callback: C,
    millis: u64,
    once: bool,
) -> (id: TimerId)
    requires
        millis <= MAX_TIMER_INTERVAL_MS,
        old(resource).timer_schedule_state.next_timer_id < u64::MAX,
        old(resource).timer_schedule_state.now <= MAX_SCHEDULE_NOW,
    ensures
        id == old(resource).timer_schedule_state.next_timer_id,
        final(resource).timer_schedule_state.now == old(resource).timer_schedule_state.now,
        final(resource).timer_schedule_state.next_timer_id == old(resource).timer_schedule_state.next_timer_id + 1,
        final(resource).timer_schedule_state.pending@ == old(resource).timer_schedule_state.pending@.push(
            (crate::timers::TimerEntry {
                id,
                interval_ms: millis,
                once: once || millis == 0,
                next_fire: (old(resource).timer_schedule_state.now + millis) as u64,
                status: crate::timers::TimerStatus::Active,
                callback: Some(callback),
            }),
        ),
        timers_wf(old(resource).timers, old(resource).timer_schedule_state) ==> timers_wf(
            final(resource).timers,
            final(resource).timer_schedule_state,
        ),
        final(resource).timers == old(resource).timers,
        final(resource).base_objects == old(resource).base_objects,
        final(resource).entities == old(resource).entities,
        final(resource).player_base_object_map == old(resource).player_base_object_map,
        final(resource).vehicle_base_object_map == old(resource).vehicle_base_object_map,
        final(resource).base_object_creation == old(resource).base_object_creation,
        final(resource).base_object_deletion == old(resource).base_object_deletion,
        final(resource).events == old(resource).events,
        final(resource).local_script_events == old(resource).local_script_events,
{
    let id = create(&mut resource.timer_schedule_state, callback, millis, once);
    proof {
        if timers_wf(old(resource).timers, old(resource).timer_schedule_state) {
            let olds = old(resource).timers.entries@ + old(resource).timer_schedule_state.pending@;
            let news = resource.timers.entries@ + resource.timer_schedule_state.pending@;
            assert(news =~= olds.push(
                (crate::timers::TimerEntry {
                    id,
                    interval_ms: millis,
                    once: once || millis == 0,
                    next_fire: (old(resource).timer_schedule_state.now + millis) as u64,
                    status: crate::timers::TimerStatus::Active,
                    callback: Some(callback),
                }),
            ));
            assert(forall|k: int| 0 <= k < olds.len() ==> news[k] == olds[k]);
            assert(news[olds.len() as int].id == id);
            assert(forall|k: int| 0 <= k < olds.len() ==> (#[trigger] olds[k]).id < id);
            assert(ids_increasing(news));
            assert(entries_bounded(news, (id + 1) as u64));
        }
    }
    id
}

/// Registers a handler for a local script event on the context.
pub fn on<C, H, N>(resource: &mut ResourceImpl<C, H, N>, event_name: String, handler: H)
    requires
        names_distinct(old(resource).local_script_events.handlers@),
    ensures
        names_distinct(final(resource).local_script_events.handlers@),
        handlers_for(final(resource).local_script_events.handlers@, event_name@) == handlers_for(
            old(resource).local_script_events.handlers@,
            event_name@,
        ).push(handler),
        forall|other: Seq<char>|
            other != event_name@ ==> #[trigger] handlers_for(
                final(resource).local_script_events.handlers@,
                other,
            ) == handlers_for(old(resource).local_script_events.handlers@, other),
        final(resource).timers == old(resource).timers,
        final(resource).timer_schedule_state == old(resource).timer_schedule_state,
        final(resource).base_objects == old(resource).base_objects,
        final(resource).entities == old(resource).entities,
        final(resource).player_base_object_map == old(resource).player_base_object_map,
        final(resource).vehicle_base_object_map == old(resource).vehicle_base_object_map,
        final(resource).base_object_creation == old(resource).base_object_creation,
        final(resource).base_object_deletion == old(resource).base_object_deletion,
        final(resource).events == old(resource).events,
{
    resource.local_script_events.add_handler(event_name, handler);
}

/// Begins dispatch of a local script event: hands out every handler
/// registered for the name, in registration order. With no handler
/// registered the plan is empty and nothing changes -- broadcast with
/// no listeners is a normal case, not an error. The caller invokes
/// each handler with the event's arguments, catching failures per
/// handler, and returns the handlers through the registry's
/// `restore_handlers`.
pub fn emit_local_event<C, H, N>(resource: &mut ResourceImpl<C, H, N>, event_name: &String) -> (plan:
    Vec<H>)
    requires
        names_distinct(old(resource).local_script_events.handlers@),
    ensures
        names_distinct(final(resource).local_script_events.handlers@),
        plan@ == handlers_for(old(resource).local_script_events.handlers@, event_name@),
        handlers_for(final(resource).local_script_events.handlers@, event_name@) == Seq::<
            H,
        >::empty(),
        forall|other: Seq<char>|
            other != event_name@ ==> #[trigger] handlers_for(
                final(resource).local_script_events.handlers@,
                other,
            ) == handlers_for(old(resource).local_script_events.handlers@, other),
        final(resource).timers == old(resource).timers,
        final(resource).timer_schedule_state == old(resource).timer_schedule_state,
        final(resource).base_objects == old(resource).base_objects,
        final(resource).entities == old(resource).entities,
        final(resource).player_base_object_map == old(resource).player_base_object_map,
        final(resource).vehicle_base_object_map == old(resource).vehicle_base_object_map,
        final(resource).base_object_creation == old(resource).base_object_creation,
        final(resource).base_object_deletion == old(resource).base_object_deletion,
        final(resource).events == old(resource).events,
{
    resource.local_script_events.take_handlers(event_name)
}


/// The creation guard moves to processing.
pub open spec fn begin_create(m: PoolModel) -> PoolModel {
    PoolModel { creating: true, ..m }
}

/// The creation guard returns to idle.
pub open spec fn finish_create(m: PoolModel) -> PoolModel {
    PoolModel { creating: false, ..m }
}

/// Registration proper: the wrapper joins the pool and, for entity
/// kinds, the typed sub-indices. A handle or network id already
/// registered is a consistency error that aborts this operation and
/// changes nothing; an unmanaged kind registers nothing.
pub open spec fn register_object(
    m: PoolModel,
    handle: RawBaseObjectPointer,
    base_type: BaseObjectType,
    id: EntityId,
) -> (PoolModel, CreateOutcome) {
    if m.pool.contains_key(handle) {
        (m, CreateOutcome::DuplicateHandle)
    } else if base_type == BaseObjectType::Player {
        if m.entities.contains_key(id) {
            (m, CreateOutcome::DuplicateEntityId)
        } else {
            let o = ManagedObject { ptr: handle, base_type, entity_id: id };
            (
                PoolModel {
                    pool: m.pool.insert(handle, o),
                    entities: m.entities.insert(id, o),
                    players: m.players.insert(handle, id),
                    ..m
                },
                CreateOutcome::Created,
            )
        }
    } else if base_type == BaseObjectType::Vehicle {
        if m.entities.contains_key(id) {
            (m, CreateOutcome::DuplicateEntityId)
        } else {
            let o = ManagedObject { ptr: handle, base_type, entity_id: id };
            (
                PoolModel {
                    pool: m.pool.insert(handle, o),
                    entities: m.entities.insert(id, o),
                    vehicles: m.vehicles.insert(handle, id),
                    ..m
                },
                CreateOutcome::Created,
            )
        }
    } else if base_type == BaseObjectType::Marker || base_type
        == BaseObjectType::VirtualEntityGroup {
        let o = ManagedObject { ptr: handle, base_type, entity_id: id };
        (PoolModel { pool: m.pool.insert(handle, o), ..m }, CreateOutcome::Created)
    } else {
        (m, CreateOutcome::UnsupportedType)
    }
}

/// One creation callback: skipped outright while another creation is
/// being processed; otherwise the guard is held around registration
/// and released on every path.
pub open spec fn create_step(
    m: PoolModel,
    handle: RawBaseObjectPointer,
    base_type: BaseObjectType,
    id: EntityId,
) -> (PoolModel, CreateOutcome) {
    if m.creating {
        (m, CreateOutcome::SkippedReentrant)
    } else {
        let (m1, out) = register_object(begin_create(m), handle, base_type, id);
        (finish_create(m1), out)
    }
}

/// Removal proper: the handle leaves the pool and every sub-index
/// that referenced it. An unknown handle is a no-op, not an error.
pub open spec fn unregister_object(m: PoolModel, handle: RawBaseObjectPointer) -> (
    PoolModel,
    DestroyOutcome,
) {
    if !m.pool.contains_key(handle) {
        (m, DestroyOutcome::UnknownHandle)
    } else {
        let o = m.pool[handle];
        (
            PoolModel {
                pool: m.pool.remove(handle),
                entities: if o.base_type.spec_is_entity() {
                    m.entities.remove(o.entity_id)
                } else {
                    m.entities
                },
                players: if o.base_type == BaseObjectType::Player {
                    m.players.remove(handle)
                } else {
                    m.players
                },
                vehicles: if o.base_type == BaseObjectType::Vehicle {
                    m.vehicles.remove(handle)
                } else {
                    m.vehicles
                },
                ..m
            },
            DestroyOutcome::Destroyed,
        )
    }
}

/// One destruction callback: skipped outright while another
/// destruction is being processed; otherwise the guard is held around
/// removal and released on every path.
pub open spec fn destroy_step(m: PoolModel, handle: RawBaseObjectPointer) -> (
    PoolModel,
    DestroyOutcome,
) {
    if m.deleting {
        (m, DestroyOutcome::SkippedReentrant)
    } else {
        let (m1, out) = unregister_object(PoolModel { deleting: true, ..m }, handle);
        (PoolModel { deleting: false, ..m1 }, out)
    }
}

/// Registration preserves pool/sub-index consistency.
pub proof fn lemma_register_object_wf(
    m: PoolModel,
    handle: RawBaseObjectPointer,
    base_type: BaseObjectType,
    id: EntityId,
)
    requires
        model_wf(m),
    ensures
        model_wf(register_object(m, handle, base_type, id).0),
{
}

/// Removal preserves pool/sub-index consistency.
pub proof fn lemma_unregister_object_wf(m: PoolModel, handle: RawBaseObjectPointer)
    requires
        model_wf(m),
    ensures
        model_wf(unregister_object(m, handle).0),
{
}

/// A creation callback preserves pool/sub-index consistency.
pub proof fn lemma_create_step_wf(
    m: PoolModel,
    handle: RawBaseObjectPointer,
    base_type: BaseObjectType,
    id: EntityId,
)
    requires
        model_wf(m),
    ensures
        model_wf(create_step(m, handle, base_type, id).0),
{
    if !m.creating {
        lemma_register_object_wf(begin_create(m), handle, base_type, id);
    }
}

/// A destruction callback preserves pool/sub-index consistency.
pub proof fn lemma_destroy_step_wf(m: PoolModel, handle: RawBaseObjectPointer)
    requires
        model_wf(m),
    ensures
        model_wf(destroy_step(m, handle).0),
{
    if !m.deleting {
        lemma_unregister_object_wf(PoolModel { deleting: true, ..m }, handle);
    }
}

impl<C, H, N> ResourceImpl<C, H, N> {
    /// The engine reports a new object. While another creation is
    /// being processed the nested call is skipped and nothing is
    /// touched; otherwise the wrapper is registered in the pool and
    /// the sub-indices for its kind, with the guard released on every
    /// path. A handle or entity id already registered aborts the
    /// operation; an unmanaged kind registers nothing.
    pub fn __on_base_object_create(
        &mut self,
        handle: RawBaseObjectPointer,
        base_object_type: BaseObjectType,
        entity_id: EntityId,
    ) -> (r: CreateOutcome)
        ensures
            final(self).model() == create_step(
                old(self).model(),
                handle,
                base_object_type,
                entity_id,
            ).0,
            r == create_step(old(self).model(), handle, base_object_type, entity_id).1,
            old(self).model().creating ==> *final(self) == *old(self),
            model_wf(old(self).model()) ==> model_wf(final(self).model()),
            final(self).timers == old(self).timers,
            final(self).timer_schedule_state == old(self).timer_schedule_state,
            final(self).events == old(self).events,
            final(self).local_script_events == old(self).local_script_events,
            final(self).base_object_deletion == old(self).base_object_deletion,
    {
        proof {
            if model_wf(old(self).model()) {
                lemma_create_step_wf(old(self).model(), handle, base_object_type, entity_id);
            }
        }
        let entered = self.base_object_creation.try_begin();
        if !entered {
            return CreateOutcome::SkippedReentrant;
        }
        if self.base_objects.contains(handle) {
            self.base_object_creation.finish();
            return CreateOutcome::DuplicateHandle;
        }
        let outcome = match base_object_type {
            BaseObjectType::Player => {
                if self.entities.get_by_id(entity_id).is_some() {
                    CreateOutcome::DuplicateEntityId
                } else {
                    let o = ManagedObject {
                        ptr: handle,
                        base_type: BaseObjectType::Player,
                        entity_id,
                    };
                    self.entities.on_create(entity_id, o);
                    self.player_base_object_map.add_base_object(handle, entity_id);
                    self.base_objects.on_create(handle, o);
                    CreateOutcome::Created
                }
            },
            BaseObjectType::Vehicle => {
                if self.entities.get_by_id(entity_id).is_some() {
                    CreateOutcome::DuplicateEntityId
                } else {
                    let o = ManagedObject {
                        ptr: handle,
                        base_type: BaseObjectType::Vehicle,
                        entity_id,
                    };
                    self.entities.on_create(entity_id, o);
                    self.vehicle_base_object_map.add_base_object(handle, entity_id);
                    self.base_objects.on_create(handle, o);
                    CreateOutcome::Created
                }
            },
            BaseObjectType::Marker => {
                let o = ManagedObject { ptr: handle, base_type: BaseObjectType::Marker, entity_id };
                self.base_objects.on_create(handle, o);
                CreateOutcome::Created
            },
            BaseObjectType::VirtualEntityGroup => {
                let o = ManagedObject {
                    ptr: handle,
                    base_type: BaseObjectType::VirtualEntityGroup,
                    entity_id,
                };
                self.base_objects.on_create(handle, o);
                CreateOutcome::Created
            },
            BaseObjectType::Unknown => CreateOutcome::UnsupportedType,
        };
        self.base_object_creation.finish();
        outcome
    }

    /// The engine reports an object destroyed. While another
    /// destruction is being processed the nested call is skipped and
    /// nothing is touched; otherwise the sub-index evictions run
    /// first (they still read the kind and id), then the handle
    /// leaves the pool, with the guard released on every path. An
    /// unknown handle is a no-op.
    pub fn __on_base_object_destroy(&mut self, handle: RawBaseObjectPointer) -> (r: DestroyOutcome)
        ensures
            final(self).model() == destroy_step(old(self).model(), handle).0,
            r == destroy_step(old(self).model(), handle).1,
            old(self).model().deleting ==> *final(self) == *old(self),
            model_wf(old(self).model()) ==> model_wf(final(self).model()),
            final(self).timers == old(self).timers,
            final(self).timer_schedule_state == old(self).timer_schedule_state,
            final(self).events == old(self).events,
            final(self).local_script_events == old(self).local_script_events,
            final(self).base_object_creation == old(self).base_object_creation,
    {
        proof {
            if model_wf(old(self).model()) {
                lemma_destroy_step_wf(old(self).model(), handle);
            }
        }
        let entered = self.base_object_deletion.try_begin();
        if !entered {
            return DestroyOutcome::SkippedReentrant;
        }
        let found = self.base_objects.get_by_handle(handle);
        match found {
            None => {
                self.base_object_deletion.finish();
                DestroyOutcome::UnknownHandle
            },
            Some(o) => {
                match o.base_type {
                    BaseObjectType::Player => {
                        self.entities.on_destroy(o.entity_id);
                        self.player_base_object_map.remove_base_object(handle);
                    },
                    BaseObjectType::Vehicle => {
                        self.entities.on_destroy(o.entity_id);
                        self.vehicle_base_object_map.remove_base_object(handle);
                    },
                    _ => {},
                }
                self.base_objects.on_destroy(handle);
                self.base_object_deletion.finish();
                DestroyOutcome::Destroyed
            },
        }
    }
}

/// One engine-driven lifecycle callback, as the laws below quantify
/// over them.
#[derive(Clone, Copy, PartialEq, Eq, Structural, Debug)]
pub enum PoolEvent {
    Create(RawBaseObjectPointer, BaseObjectType, EntityId),
    Destroy(RawBaseObjectPointer),
}

/// The state after one lifecycle callback.
pub open spec fn apply_event(m: PoolModel, e: PoolEvent) -> PoolModel {
    match e {
        PoolEvent::Create(h, bt, id) => create_step(m, h, bt, id).0,
        PoolEvent::Destroy(h) => destroy_step(m, h).0,
    }
}

/// The state after a sequence of lifecycle callbacks, in order.
pub open spec fn apply_events(m: PoolModel, evs: Seq<PoolEvent>) -> PoolModel
    decreases evs.len(),
{
    if evs.len() == 0 {
        m
    } else {
        apply_event(apply_events(m, evs.drop_last()), evs.last())
    }
}

/// Every sequence of creation and destruction callbacks preserves
/// pool/sub-index consistency.
pub proof fn lemma_lifecycle_wf(m: PoolModel, evs: Seq<PoolEvent>)
    requires
        model_wf(m),
    ensures
        model_wf(apply_events(m, evs)),
    decreases evs.len(),
{
    if evs.len() > 0 {
        lemma_lifecycle_wf(m, evs.drop_last());
        match evs.last() {
            PoolEvent::Create(h, bt, id) => {
                lemma_create_step_wf(apply_events(m, evs.drop_last()), h, bt, id);
            },
            PoolEvent::Destroy(h) => {
                lemma_destroy_step_wf(apply_events(m, evs.drop_last()), h);
            },
        }
    }
}

/// Pool uniqueness: after any sequence of creation and destruction
/// callbacks from a consistent state, each live handle maps to
/// exactly one managed object, the one that records that very
/// handle; and every sub-index entry refers to that same object,
/// never to a second copy.
pub proof fn lemma_pool_uniqueness(m: PoolModel, evs: Seq<PoolEvent>)
    requires
        model_wf(m),
    ensures
        forall|h: RawBaseObjectPointer|
            #[trigger] apply_events(m, evs).pool.contains_key(h) ==> apply_events(
                m,
                evs,
            ).pool[h].ptr == h,
        forall|id: EntityId|
            #[trigger] apply_events(m, evs).entities.contains_key(id) ==> apply_events(
                m,
                evs,
            ).pool[apply_events(m, evs).entities[id].ptr] == apply_events(m, evs).entities[id],
{
    lemma_lifecycle_wf(m, evs);
}

/// Index consistency: in every consistent state, each handle in a
/// typed sub-index is in the identity pool, and each pooled object of
/// an indexed kind is in its sub-indices.
pub proof fn lemma_index_consistency(m: PoolModel)
    requires
        model_wf(m),
    ensures
        forall|id: EntityId|
            #[trigger] m.entities.contains_key(id) ==> m.pool.contains_key(m.entities[id].ptr),
        forall|h: RawBaseObjectPointer| #[trigger] m.players.contains_key(h) ==> m.pool.contains_key(h),
        forall|h: RawBaseObjectPointer| #[trigger] m.vehicles.contains_key(h) ==> m.pool.contains_key(h),
        forall|h: RawBaseObjectPointer|
            #[trigger] m.pool.contains_key(h) && m.pool[h].base_type.spec_is_entity()
                ==> m.entities.contains_key(m.pool[h].entity_id),
        forall|h: RawBaseObjectPointer|
            #[trigger] m.pool.contains_key(h) && m.pool[h].base_type == BaseObjectType::Player
                ==> m.players.contains_key(h),
        forall|h: RawBaseObjectPointer|
            #[trigger] m.pool.contains_key(h) && m.pool[h].base_type == BaseObjectType::Vehicle
                ==> m.vehicles.contains_key(h),
{
}

/// Reentrancy skip: a creation callback that arrives while an outer
/// creation is mid-protocol is a no-op, and the outer creation then
/// completes exactly as it would have without the nested call: the
/// pool gains the outer object alone, and the guard ends idle.
pub proof fn lemma_reentrancy_skip(
    m: PoolModel,
    h1: RawBaseObjectPointer,
    bt1: BaseObjectType,
    id1: EntityId,
    h2: RawBaseObjectPointer,
    bt2: BaseObjectType,
    id2: EntityId,
)
    requires
        model_wf(m),
        !m.creating,
        !m.pool.contains_key(h1),
        bt1 != BaseObjectType::Unknown,
        bt1.spec_is_entity() ==> !m.entities.contains_key(id1),
    ensures
        ({
            let m_mid = begin_create(m);
            let inner = create_step(m_mid, h2, bt2, id2);
            let outer = register_object(inner.0, h1, bt1, id1);
            let m_done = finish_create(outer.0);
            &&& inner.1 == CreateOutcome::SkippedReentrant
            &&& inner.0 == m_mid
            &&& outer.1 == CreateOutcome::Created
            &&& m_done == create_step(m, h1, bt1, id1).0
            &&& m_done.pool == m.pool.insert(
                h1,
                (ManagedObject { ptr: h1, base_type: bt1, entity_id: id1 }),
            )
            &&& !m_done.creating
        }),
{
}

/// Guarded release: a creation or destruction callback that starts
/// with its guard idle leaves it idle again, whatever the outcome --
/// a failed registration cannot wedge future creations or
/// destructions.
pub proof fn lemma_guard_released(
    m: PoolModel,
    h1: RawBaseObjectPointer,
    bt: BaseObjectType,
    id: EntityId,
    h2: RawBaseObjectPointer,
)
    requires
        !m.creating,
        !m.deleting,
    ensures
        !create_step(m, h1, bt, id).0.creating,
        !destroy_step(m, h2).0.deleting,
        create_step(m, h1, bt, id).0.deleting == m.deleting,
        destroy_step(m, h2).0.creating == m.creating,
{
}

/// Stale access: once a destruction callback for a handle has been
/// processed, the handle is in no sub-index, any lookup of it misses,
/// and an indexed entity id derived from it is gone.
pub proof fn lemma_stale_access(m: PoolModel, handle: RawBaseObjectPointer)
    requires
        model_wf(m),
        !m.deleting,
    ensures
        ({
            let m1 = destroy_step(m, handle).0;
            &&& !m1.pool.contains_key(handle)
            &&& !m1.players.contains_key(handle)
            &&& !m1.vehicles.contains_key(handle)
            &&& (m.pool.contains_key(handle) && m.pool[handle].base_type.spec_is_entity()
                ==> !m1.entities.contains_key(m.pool[handle].entity_id))
        }),
{
}

} // verus!
