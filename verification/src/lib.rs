//! Catena engine: the core value types, components and data structures of a
//! MUD engine, with their guarantees proved.
//!
//! - [`room_key`]: validated, namespaced room identifiers.
//! - [`direction`]: validated direction names and their inverses.
//! - [`exits`]: a room's exit map and the reciprocal patches its changes produce.
//! - [`room_registry`]: the map from room key to room entity.
//! - [`components`]: ECS components (room names, descriptions, markers).
//! - [`types`]: enums and value types used by the engine.
//! - [`text`] and [`keyed`]: character classes and the model of keyed entry lists.

pub mod components;
pub mod direction;
pub mod exits;
pub mod keyed;
pub mod room_key;
pub mod room_registry;
pub mod text;
pub mod types;
