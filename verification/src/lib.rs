//! In-process resource runtime for a game-server engine.
//!
//! The engine drives the runtime through a small set of entry points
//! (tick, object created, object destroyed, native event fired); the
//! runtime keeps a pool of managed object handles, typed sub-indices
//! over that pool, a tick-driven timer scheduler, and two event
//! registries (engine events and user-defined local events).
//!
//! Callbacks and event handlers are opaque to the runtime: every
//! registry is generic over the handler type it stores, and dispatch
//! is split into a verified bookkeeping step (which handlers fire, in
//! what order, and how the state advances) and an unverified outer
//! loop that actually invokes the handler values it is handed.

pub mod types;

pub mod model_hash;

pub mod timers;

pub mod base_object;

pub mod entity;

pub mod base_object_maps;

pub mod local_script_events;

pub mod events;

pub mod wrapper;

pub mod method_parser;

pub mod text;

pub mod resource_impl;
