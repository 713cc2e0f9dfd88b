//! Simulation rules of a small arena game in which the player draws a stroke
//! that becomes a dash: stroke capture and smoothing, dash resolution with
//! sweep damage and room unlocking, and particle sampling.
//!
//! All quantities are fixed-point integers (thousandths), so that a run is
//! reproducible bit for bit.

pub mod fixed;
pub mod geometry;
pub mod smoothing;
pub mod rooms;
pub mod drawing;
pub mod bounded;
pub mod collider;
pub mod enemy;
pub mod particles;
pub mod events;
pub mod model;
pub mod render;
