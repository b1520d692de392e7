//! Per-frame simulation core of a shrinking-arena shooter.
//!
//! All quantities are integers: positions, radii and arena extents are in
//! world units, speeds in world units per second, elapsed time in
//! milliseconds, and directions are integer vectors that are normalised in
//! fixed point before use. `world::World::tick_with` advances the session by
//! one step with the random fractions given to it; `world::World::tick`
//! draws them itself.
pub mod arena;
mod chance;
pub mod entity;
pub mod geometry;
pub mod world;
