//! Core gameplay logic of a top-down arena shooter: enemy spawning under a
//! population cap, destination-seek movement, keyboard-driven player movement,
//! collision damage, camera smoothing, world decoration density, and the
//! coarse game-state machine.
//!
//! All geometry is carried in fixed-point integer coordinates (milli-units),
//! so that every rule can be stated and proved exactly. The surrounding
//! engine, renderer and physics collaborators stay outside this crate; they
//! hand plain values in and take plain values back.

pub mod camera;
pub mod configs;
pub mod controls;
pub mod enemy;
pub mod geometry;
pub mod player;
pub mod rng;
pub mod state;
pub mod world;
