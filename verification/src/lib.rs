//! Core of a real-time simulation loop: an ordered broadcast log with
//! per-consumer cursors (`event`), a fixed-capacity object pool driving a
//! particle emitter (`particle`), a physics integration layer that correlates
//! engine contacts back to entities and synchronizes transforms (`physics`),
//! and an end-of-tick entity reaper (`delete`).
//!
//! All spatial quantities are fixed-point integers in milli-units: a
//! coordinate of 1000 is one world unit, a rate of 1000 is one particle per
//! frame, an angle of 1000 milli-turns is one full turn. This keeps every
//! rule of the simulation in exact integer arithmetic.

pub mod geom2;
pub mod timer;
pub mod event;
pub mod colors;
pub mod curve;
pub mod random;
pub mod particle;
pub mod transform;
pub mod physics;
pub mod delete;
pub mod animation;
pub mod window;
pub mod config;
pub mod input;
pub mod mesh;
pub mod loader;
pub mod prefab;
