//! Runtime core of a 2D strategy game: a component store, per-frame systems
//! ordered by a dependency-respecting dispatcher, entity factories, and the
//! screen state machine that decides when the world is ticked.

pub mod store;
pub mod components;
pub mod kinds;
pub mod world;
pub mod platform;
pub mod resources;
pub mod general_unit;
pub mod graph;
pub mod dispatcher;
pub mod hierarchy;
pub mod game;
pub mod screens;
