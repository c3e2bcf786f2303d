//! Plain fixed-point geometry values: positions, velocities, screen
//! bounds and the logo's extent, all in milli-pixels.

use vstd::prelude::*;

verus! {

/// A 2D vector in milli-pixels (or milli-pixels per second when used
/// as a velocity).
#[derive(Clone, Copy, PartialEq, Eq, Structural, Debug)]
pub struct Vec2 {
    pub x: i64,
    pub y: i64,
}

/// Screen bounds in milli-pixels; both sides positive.
#[derive(Clone, Copy, PartialEq, Eq, Structural, Debug)]
pub struct Bounds {
    pub width: i64,
    pub height: i64,
}

/// The logo's drawn size in milli-pixels; fixed for the run.
#[derive(Clone, Copy, PartialEq, Eq, Structural, Debug)]
pub struct Extent {
    pub width: i64,
    pub height: i64,
}

/// Absolute value of an integer.
pub open spec fn abs_val(v: int) -> int {
    if v < 0 {
        -v
    } else {
        v
    }
}

/// Absolute value on `i64`.
pub fn abs64(v: i64) -> (r: i64)
    requires
        v > i64::MIN,
    ensures
        r == abs_val(v as int),
{
    if v < 0 {
        -v
    } else {
        v
    }
}

/// The optional trace of center points: append-only while enabled,
/// untouched while disabled, never truncated.
pub struct TracePath {
    pub enabled: bool,
    pub points: Vec<Vec2>,
}

impl TracePath {
    /// An empty trace, enabled or not.
    pub fn new(enabled: bool) -> (t: TracePath)
        ensures
            t.enabled == enabled,
            t.points@ == Seq::<Vec2>::empty(),
    {
        TracePath { enabled, points: Vec::new() }
    }

    /// Append one center point when the trace is enabled; existing
    /// points are never dropped or changed.
    pub fn record(&mut self, p: Vec2)
        ensures
            final(self).enabled == old(self).enabled,
            old(self).enabled ==> final(self).points@ == old(self).points@.push(p),
            !old(self).enabled ==> final(self).points@ == old(self).points@,
    {
        if self.enabled {
            self.points.push(p);
        }
    }
}

/// Center point of the logo's bounding box, given its top-left corner.
pub fn center_of(pos: Vec2, extent: Extent) -> (c: Vec2)
    requires
        0 <= extent.width,
        0 <= extent.height,
        pos.x + extent.width / 2 <= i64::MAX,
        pos.y + extent.height / 2 <= i64::MAX,
    ensures
        c.x == pos.x + extent.width / 2,
        c.y == pos.y + extent.height / 2,
{
    Vec2 { x: pos.x + extent.width / 2, y: pos.y + extent.height / 2 }
}

} // verus!
