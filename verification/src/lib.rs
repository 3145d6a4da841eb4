//! Simulation-and-projection core of a pseudo-3D grid renderer.
//!
//! The library models a first-person view of a 2D occupancy grid: an avatar
//! with a position and heading moves under held-direction input, rays are
//! marched from the avatar across the grid in unit steps, and each ray's hit
//! distance is projected to a screen-space wall column, a shading level and a
//! minimap overlay.
//!
//! All quantities are exact fixed-point integers: lengths carry 16 fractional
//! bits (see [`fp::ONE`]), and headings are binary angle measure with 65536
//! units to a full turn (see [`angle::TURN`]). Windowing, key dispatch and the
//! actual drawing calls are the host's business; the host hands in plain
//! values (tick durations, input events) and receives plain draw primitives.

pub mod angle;
pub mod avatar;
pub mod config;
pub mod engine;
pub mod errors;
pub mod fp;
pub mod grid;
pub mod input;
pub mod mathx;
pub mod motion;
pub mod project;
pub mod ray;
pub mod trig;
