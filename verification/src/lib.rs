//! A verified entity/component simulation core for a tile-based colony game.
//!
//! The crate provides an entity allocator, a generic sparse-set component
//! store, and the systems and per-tick command interpreter that drive units:
//! collision-gated movement, distance- and availability-gated resource
//! transfers, and a wrapping per-unit program counter.

pub mod component_manager;
pub mod components;
pub mod entity_manager;
pub mod game_state;
pub mod systems;
pub mod utils;
pub mod widget;
