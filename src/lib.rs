//! Core logic of a first-person aim trainer: the sensitivity transfer curve,
//! hitscan ray/sphere tests, target movement, scoring and the timed scenario
//! sequencer. Every quantity is an integer in a fixed unit:
//! lengths in micrometres, time in milliseconds, velocities in micrometres per
//! millisecond, sensitivities and growth bases in thousandths, input speeds in
//! pixels per second.

pub mod curve;
pub mod geometry;
pub mod random;
pub mod timer;
pub mod targets;
pub mod movement;
pub mod score;
pub mod shooting;
pub mod scenario;
pub mod layout;
pub mod input;
pub mod session;
pub mod camera;
