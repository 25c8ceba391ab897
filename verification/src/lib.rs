//! A verified core for a 2D platform-game editor and player.
//!
//! Entities are axis-aligned rectangles on a large canvas, driven each tick
//! by axis-separated slide resolution, faction-based combat, portal
//! teleportation and a frame-scheduled destruction sweep.  All world
//! coordinates are fixed-point integers: `UNIT` subdivisions per world pixel,
//! bounded by `LIMIT`, so every computation is exact and proved free of
//! overflow.  Rendering, windowing, input decoding and persistence are left
//! to the host program, which talks to this crate through plain values.

pub mod draw;
pub mod engine;
pub mod fixed_vec;
pub mod geometry;
pub mod input;
pub mod laws;
pub mod objects;
