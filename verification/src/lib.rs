//! The simulation core of a two-dimensional game.
//!
//! The core owns the world, advances it tick by tick, detects and resolves
//! collisions, and hands a snapshot of the world to the renderer. All
//! quantities are fixed-point integers (see [`units`]), so that every result
//! is exact and the same on every machine.
pub mod animation;
pub mod collision;
pub mod components;
pub mod controls;
pub mod decay;
pub mod direction;
pub mod draw_state;
pub mod external_event;
pub mod external_event_handler;
pub mod handoff;
pub mod logic;
pub mod state_input_event;
pub mod systems;
pub mod units;
pub mod vec2;
pub mod world;
