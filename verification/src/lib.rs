//! Bounce simulator for a desktop logo overlay.
//!
//! All quantities are fixed-point integers: positions and extents in
//! milli-pixels, velocities in milli-pixels per second, elapsed time in
//! milliseconds, and the speed multiplier in thousandths. The simulator
//! integrates motion in sub-steps so that fast motion cannot tunnel
//! through a wall, flips velocity signs on wall contact, detects corner
//! hits, and drives a timed color-flash animation.

pub mod anim;
pub mod color;
pub mod config;
pub mod geom;
pub mod sim;

use vstd::prelude::*;

verus! {

/// One thousandth of a pixel, second or unit: the fixed-point scale.
pub const SCALE: i64 = 1000;

} // verus!
