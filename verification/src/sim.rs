//! The per-frame bounce simulator: sub-stepped position integration,
//! wall collision with clamping, velocity sign forcing, and corner-hit
//! detection. The whole frame is specified by a recursive model over
//! sub-steps, and the executable simulator is proved to compute exactly
//! that model.

use vstd::prelude::*;

use crate::geom::{abs64, abs_val, Bounds, Extent, Vec2};

verus! {

/// Displacement budget, in milli-pixels, for one sub-step: the frame's
/// motion is divided into enough sub-steps that each covers about this
/// much at most on either axis, which keeps fast motion from tunneling
/// through a wall.
pub const MAX_STEP_MPX: i64 = 16000;

/// Widest screen side accepted, in milli-pixels (100 000 pixels).
pub const BOUND_MAX: i64 = 100_000_000;

/// Largest velocity magnitude accepted, in milli-pixels per second
/// (1 000 000 pixels per second).
pub const VEL_MAX: i64 = 1_000_000_000;

/// Farthest a starting position may lie from the origin, per axis, in
/// milli-pixels.
pub const POS_MAX: i64 = 10_000_000_000;

/// Longest frame accepted, in milliseconds (ten seconds).
pub const DT_MAX: i64 = 10_000;

/// Largest corner margin accepted, in milli-pixels.
pub const MARGIN_MAX: i64 = 10_000_000_000_000;

/// Which walls an axis bounced against during the frame, and whether a
/// corner hit was recorded in any sub-step.
#[derive(Clone, Copy, PartialEq, Eq, Structural, Debug)]
pub struct FrameEvents {
    pub bounced_x: bool,
    pub bounced_y: bool,
    pub corner_hit: bool,
}

/// Displacement of one sub-step: velocity (milli-pixels per second)
/// times the sub-step's duration (microseconds), scaled to
/// milli-pixels, truncating toward zero.
pub open spec fn advance_of(v: int, dt: int) -> int {
    if v >= 0 {
        (v * dt) / 1_000_000
    } else {
        -(((-v) * dt) / 1_000_000)
    }
}

/// True when a position touches or crosses a wall of its axis.
pub open spec fn hits_wall(p: int, extent: int, bound: int) -> bool {
    p <= 0 || p + extent >= bound
}

/// The position after wall clamping: never below 0, never past
/// `bound - extent`.
pub open spec fn clamped_pos(p: int, extent: int, bound: int) -> int {
    if p <= 0 {
        0
    } else if p + extent >= bound {
        bound - extent
    } else {
        p
    }
}

/// The velocity after wall contact: forced away from the wall that was
/// hit (positive off the low wall, negative off the high wall),
/// magnitude kept; unchanged when no wall was hit.
pub open spec fn clamped_vel(p: int, v: int, extent: int, bound: int) -> int {
    if p <= 0 {
        abs_val(v)
    } else if p + extent >= bound {
        -abs_val(v)
    } else {
        v
    }
}

/// True when the (post-clamp) position is within `margin` of a vertical
/// edge and of a horizontal edge at once.
pub open spec fn near_corner(
    px: int,
    py: int,
    ew: int,
    eh: int,
    bw: int,
    bh: int,
    margin: int,
) -> bool {
    (px <= margin || px + ew >= bw - margin) && (py <= margin || py + eh >= bh - margin)
}

/// One sub-step of the model: integrate both axes, clamp each against
/// its walls, then decide the corner flag on the clamped position.
/// Returns (x, y, vx, vy, bounced x, bounced y, corner hit).
pub open spec fn sub_step_model(
    px: int,
    py: int,
    vx: int,
    vy: int,
    ew: int,
    eh: int,
    bw: int,
    bh: int,
    margin: int,
    dt: int,
) -> (int, int, int, int, bool, bool, bool) {
    let ix = px + advance_of(vx, dt);
    let iy = py + advance_of(vy, dt);
    let npx = clamped_pos(ix, ew, bw);
    let npy = clamped_pos(iy, eh, bh);
    let nvx = clamped_vel(ix, vx, ew, bw);
    let nvy = clamped_vel(iy, vy, eh, bh);
    let bx = hits_wall(ix, ew, bw);
    let by = hits_wall(iy, eh, bh);
    let corner = (bx && by) || (near_corner(npx, npy, ew, eh, bw, bh, margin) && (bx || by));
    (npx, npy, nvx, nvy, bx, by, corner)
}

/// The frame model: `n` sub-steps applied in order, with the bounce and
/// corner flags OR-reduced across sub-steps. A corner hit in any
/// sub-step marks the whole frame.
pub open spec fn frame_model(
    px: int,
    py: int,
    vx: int,
    vy: int,
    ew: int,
    eh: int,
    bw: int,
    bh: int,
    margin: int,
    dt: int,
    n: nat,
) -> (int, int, int, int, bool, bool, bool)
    decreases n,
{
    if n == 0 {
        (px, py, vx, vy, false, false, false)
    } else {
        let p = frame_model(px, py, vx, vy, ew, eh, bw, bh, margin, dt, (n - 1) as nat);
        let s = sub_step_model(p.0, p.1, p.2, p.3, ew, eh, bw, bh, margin, dt);
        (s.0, s.1, s.2, s.3, p.4 || s.4, p.5 || s.5, p.6 || s.6)
    }
}

/// How many sub-steps a frame is divided into: one per `MAX_STEP_MPX`
/// of the fastest axis's travel, rounded up, and at least one, so that
/// clamping runs even on a zero-length frame.
pub open spec fn step_count(vx: int, vy: int, dt: int) -> int {
    let speed = if abs_val(vx) >= abs_val(vy) {
        abs_val(vx)
    } else {
        abs_val(vy)
    };
    let dist = (speed * dt) / 1000;
    let c = (dist + (MAX_STEP_MPX - 1)) / (MAX_STEP_MPX as int);
    if c < 1 {
        1
    } else {
        c
    }
}

/// The duration of each sub-step, in microseconds: fine enough that a
/// sub-step keeps a nonzero duration at any accepted speed and frame
/// length.
pub open spec fn sub_dt(vx: int, vy: int, dt: int) -> int {
    (dt * 1000) / step_count(vx, vy, dt)
}

/// Displacement of one sub-step, executable form; `dt` in microseconds.
fn advance(v: i64, dt: i64) -> (a: i64)
    requires
        -VEL_MAX <= v <= VEL_MAX,
        0 <= dt <= DT_MAX * 1000,
    ensures
        a == advance_of(v as int, dt as int),
        -POS_MAX <= a <= POS_MAX,
{
    if v >= 0 {
        proof {
            assert(0 <= (v as int) * (dt as int) <= (VEL_MAX as int) * (DT_MAX as int) * 1000)
                by (nonlinear_arith)
                requires
                    0 <= v <= VEL_MAX,
                    0 <= dt <= DT_MAX * 1000,
            ;
        }
        (v * dt) / 1_000_000
    } else {
        proof {
            assert(0 <= (-(v as int)) * (dt as int) <= (VEL_MAX as int) * (DT_MAX as int) * 1000)
                by (nonlinear_arith)
                requires
                    -VEL_MAX <= v < 0,
                    0 <= dt <= DT_MAX * 1000,
            ;
        }
        -(((-v) * dt) / 1_000_000)
    }
}

/// After one sub-step the bounding box lies within the walls, whatever
/// position it started from.
pub proof fn lemma_sub_step_in_box(
    px: int,
    py: int,
    vx: int,
    vy: int,
    ew: int,
    eh: int,
    bw: int,
    bh: int,
    margin: int,
    dt: int,
)
    requires
        0 < ew <= bw,
        0 < eh <= bh,
    ensures
        ({
            let s = sub_step_model(px, py, vx, vy, ew, eh, bw, bh, margin, dt);
            0 <= s.0 && s.0 + ew <= bw && 0 <= s.1 && s.1 + eh <= bh
        }),
{
}

/// After a frame of at least one sub-step the bounding box lies within
/// the walls: no tunneling, whatever the starting position, velocity
/// and frame length.
pub proof fn lemma_frame_in_box(
    px: int,
    py: int,
    vx: int,
    vy: int,
    ew: int,
    eh: int,
    bw: int,
    bh: int,
    margin: int,
    dt: int,
    n: nat,
)
    requires
        n >= 1,
        0 < ew <= bw,
        0 < eh <= bh,
    ensures
        ({
            let m = frame_model(px, py, vx, vy, ew, eh, bw, bh, margin, dt, n);
            0 <= m.0 && m.0 + ew <= bw && 0 <= m.1 && m.1 + eh <= bh
        }),
{
    let p = frame_model(px, py, vx, vy, ew, eh, bw, bh, margin, dt, (n - 1) as nat);
    lemma_sub_step_in_box(p.0, p.1, p.2, p.3, ew, eh, bw, bh, margin, dt);
}

/// What one sub-step does to velocity: a bounce forces the sign of the
/// bounced axis away from its wall (flipping it when the axis was
/// moving toward that wall) and keeps the magnitude; the other axis's
/// velocity is untouched.
pub proof fn lemma_sub_step_velocity(
    px: int,
    py: int,
    vx: int,
    vy: int,
    ew: int,
    eh: int,
    bw: int,
    bh: int,
    margin: int,
    dt: int,
)
    ensures
        ({
            let ix = px + advance_of(vx, dt);
            let iy = py + advance_of(vy, dt);
            let s = sub_step_model(px, py, vx, vy, ew, eh, bw, bh, margin, dt);
            &&& abs_val(s.2) == abs_val(vx)
            &&& abs_val(s.3) == abs_val(vy)
            &&& !s.4 ==> s.2 == vx
            &&& !s.5 ==> s.3 == vy
            &&& s.4 && ix <= 0 ==> s.2 == abs_val(vx)
            &&& s.4 && ix > 0 ==> s.2 == -abs_val(vx)
            &&& s.5 && iy <= 0 ==> s.3 == abs_val(vy)
            &&& s.5 && iy > 0 ==> s.3 == -abs_val(vy)
            &&& vx < 0 && ix <= 0 ==> s.2 == -vx
            &&& vx > 0 && ix > 0 && ix + ew >= bw ==> s.2 == -vx
            &&& vy < 0 && iy <= 0 ==> s.3 == -vy
            &&& vy > 0 && iy > 0 && iy + eh >= bh ==> s.3 == -vy
        }),
{
}

/// What a whole frame does to velocity: the magnitude of each axis is
/// kept exactly (the simulator never slows, speeds up or zeroes an
/// axis), and an axis that never bounced keeps its velocity, sign
/// included.
pub proof fn lemma_frame_velocity(
    px: int,
    py: int,
    vx: int,
    vy: int,
    ew: int,
    eh: int,
    bw: int,
    bh: int,
    margin: int,
    dt: int,
    n: nat,
)
    ensures
        ({
            let m = frame_model(px, py, vx, vy, ew, eh, bw, bh, margin, dt, n);
            &&& abs_val(m.2) == abs_val(vx)
            &&& abs_val(m.3) == abs_val(vy)
            &&& !m.4 ==> m.2 == vx
            &&& !m.5 ==> m.3 == vy
            &&& vx != 0 ==> m.2 != 0
            &&& vy != 0 ==> m.3 != 0
        }),
    decreases n,
{
    if n > 0 {
        lemma_frame_velocity(px, py, vx, vy, ew, eh, bw, bh, margin, dt, (n - 1) as nat);
    }
}

/// Corner-hit detection for one sub-step: a simultaneous bounce on both
/// axes always flags a corner, whatever the margin; a single-axis
/// bounce flags one exactly when the clamped position is within the
/// margin of a corner.
pub proof fn lemma_sub_step_corner(
    px: int,
    py: int,
    vx: int,
    vy: int,
    ew: int,
    eh: int,
    bw: int,
    bh: int,
    margin: int,
    dt: int,
)
    ensures
        ({
            let s = sub_step_model(px, py, vx, vy, ew, eh, bw, bh, margin, dt);
            &&& s.4 && s.5 ==> s.6
            &&& (s.4 || s.5) && near_corner(s.0, s.1, ew, eh, bw, bh, margin) ==> s.6
            &&& !(s.4 && s.5) && !near_corner(s.0, s.1, ew, eh, bw, bh, margin) ==> !s.6
            &&& !s.4 && !s.5 ==> !s.6
        }),
{
}

/// A corner hit never comes out of thin air: a frame flags one only if
/// some axis bounced in it.
pub proof fn lemma_frame_corner_needs_bounce(
    px: int,
    py: int,
    vx: int,
    vy: int,
    ew: int,
    eh: int,
    bw: int,
    bh: int,
    margin: int,
    dt: int,
    n: nat,
)
    ensures
        ({
            let m = frame_model(px, py, vx, vy, ew, eh, bw, bh, margin, dt, n);
            m.6 ==> m.4 || m.5
        }),
    decreases n,
{
    if n > 0 {
        lemma_frame_corner_needs_bounce(px, py, vx, vy, ew, eh, bw, bh, margin, dt, (n - 1) as nat);
    }
}

/// Sub-steps never lose the frame's motion to truncation: for any
/// accepted velocity, a frame of at least one millisecond gets
/// sub-steps of at least one microsecond.
pub proof fn lemma_sub_dt_positive(vx: int, vy: int, dt: int)
    requires
        1 <= dt <= DT_MAX,
        -VEL_MAX <= vx <= VEL_MAX,
        -VEL_MAX <= vy <= VEL_MAX,
    ensures
        sub_dt(vx, vy, dt) >= 1,
        step_count(vx, vy, dt) >= 1,
{
    let speed = if abs_val(vx) >= abs_val(vy) {
        abs_val(vx)
    } else {
        abs_val(vy)
    };
    assert(0 <= speed <= VEL_MAX);
    assert(speed * dt <= VEL_MAX * dt) by (nonlinear_arith)
        requires
            0 <= speed <= VEL_MAX,
            1 <= dt,
    ;
    assert(speed * dt >= 0) by (nonlinear_arith)
        requires
            0 <= speed,
            1 <= dt,
    ;
    let dist = (speed * dt) / 1000;
    assert((VEL_MAX as int) * dt == 1_000_000_000 * dt);
    assert((1_000_000_000 * dt) / 1000 == 1_000_000 * dt) by (nonlinear_arith);
    assert(dist <= 1_000_000 * dt);
    let c = (dist + (MAX_STEP_MPX - 1)) / (MAX_STEP_MPX as int);
    assert(c <= (1_000_000 * dt + 15999) / 16000);
    assert((1_000_000 * dt + 15999) / 16000 < 1000 * dt) by {
        assert(1_000_000 * dt + 15999 < 16000 * (1000 * dt));
    }
    assert(step_count(vx, vy, dt) <= 1000 * dt || step_count(vx, vy, dt) == 1);
    assert(step_count(vx, vy, dt) >= 1);
    assert(dt * 1000 >= step_count(vx, vy, dt) >= 1);
    vstd::arithmetic::div_mod::lemma_div_non_zero(dt * 1000, step_count(vx, vy, dt));
}

/// Advance position and velocity by one frame. The frame is divided
/// into sub-steps, each integrating the position, clamping it to the
/// walls, forcing the velocity away from any wall hit, and checking for
/// a corner hit; the returned events are the OR over all sub-steps.
/// The result is exactly the frame model, and on top of that: the final
/// bounding box lies within the walls, each axis keeps its velocity
/// magnitude, and an axis that did not bounce keeps its velocity
/// unchanged.
pub fn simulate_frame(
    pos: &mut Vec2,
    vel: &mut Vec2,
    bounds: Bounds,
    extent: Extent,
    margin: i64,
    dt_ms: i64,
) -> (ev: FrameEvents)
    requires
        0 < extent.width <= bounds.width <= BOUND_MAX,
        0 < extent.height <= bounds.height <= BOUND_MAX,
        -VEL_MAX <= old(vel).x <= VEL_MAX,
        -VEL_MAX <= old(vel).y <= VEL_MAX,
        -POS_MAX <= old(pos).x <= POS_MAX,
        -POS_MAX <= old(pos).y <= POS_MAX,
        0 <= margin <= MARGIN_MAX,
        0 <= dt_ms <= DT_MAX,
    ensures
        ({
            let n = step_count(old(vel).x as int, old(vel).y as int, dt_ms as int) as nat;
            let d = sub_dt(old(vel).x as int, old(vel).y as int, dt_ms as int);
            let m = frame_model(
                old(pos).x as int,
                old(pos).y as int,
                old(vel).x as int,
                old(vel).y as int,
                extent.width as int,
                extent.height as int,
                bounds.width as int,
                bounds.height as int,
                margin as int,
                d,
                n,
            );
            &&& final(pos).x == m.0
            &&& final(pos).y == m.1
            &&& final(vel).x == m.2
            &&& final(vel).y == m.3
            &&& ev.bounced_x == m.4
            &&& ev.bounced_y == m.5
            &&& ev.corner_hit == m.6
        }),
        0 <= final(pos).x && final(pos).x + extent.width <= bounds.width,
        0 <= final(pos).y && final(pos).y + extent.height <= bounds.height,
        abs_val(final(vel).x as int) == abs_val(old(vel).x as int),
        abs_val(final(vel).y as int) == abs_val(old(vel).y as int),
        !ev.bounced_x ==> final(vel).x == old(vel).x,
        !ev.bounced_y ==> final(vel).y == old(vel).y,
        old(vel).x != 0 ==> final(vel).x != 0,
        old(vel).y != 0 ==> final(vel).y != 0,
        ev.corner_hit ==> ev.bounced_x || ev.bounced_y,
{
    let ghost px0: int = pos.x as int;
    let ghost py0: int = pos.y as int;
    let ghost vx0: int = vel.x as int;
    let ghost vy0: int = vel.y as int;
    let ghost ew: int = extent.width as int;
    let ghost eh: int = extent.height as int;
    let ghost bw: int = bounds.width as int;
    let ghost bh: int = bounds.height as int;

    let ax = abs64(vel.x);
    let ay = abs64(vel.y);
    let speed = if ax >= ay {
        ax
    } else {
        ay
    };
    proof {
        assert(0 <= (speed as int) * (dt_ms as int) <= (VEL_MAX as int) * (DT_MAX as int))
            by (nonlinear_arith)
            requires
                0 <= speed <= VEL_MAX,
                0 <= dt_ms <= DT_MAX,
        ;
    }
    let dist = (speed * dt_ms) / 1000;
    let mut steps = (dist + (MAX_STEP_MPX - 1)) / MAX_STEP_MPX;
    if steps < 1 {
        steps = 1;
    }
    assert(steps == step_count(vx0, vy0, dt_ms as int));
    let sd = (dt_ms * 1000) / steps;
    assert(0 <= sd <= dt_ms * 1000);

    let mut bounced_x = false;
    let mut bounced_y = false;
    let mut corner_hit = false;
    let mut i: i64 = 0;
    while i < steps
        invariant
            0 <= i <= steps,
            steps == step_count(vx0, vy0, dt_ms as int),
            sd == sub_dt(vx0, vy0, dt_ms as int),
            0 <= sd <= DT_MAX * 1000,
            ew == extent.width as int,
            eh == extent.height as int,
            bw == bounds.width as int,
            bh == bounds.height as int,
            0 < ew <= bw <= BOUND_MAX,
            0 < eh <= bh <= BOUND_MAX,
            0 <= margin <= MARGIN_MAX,
            ({
                let m = frame_model(px0, py0, vx0, vy0, ew, eh, bw, bh, margin as int, sd as int, i as nat);
                &&& pos.x == m.0
                &&& pos.y == m.1
                &&& vel.x == m.2
                &&& vel.y == m.3
                &&& bounced_x == m.4
                &&& bounced_y == m.5
                &&& corner_hit == m.6
            }),
            abs_val(vel.x as int) == abs_val(vx0),
            abs_val(vel.y as int) == abs_val(vy0),
            abs_val(vx0) <= VEL_MAX,
            abs_val(vy0) <= VEL_MAX,
            i == 0 ==> -POS_MAX <= pos.x <= POS_MAX && -POS_MAX <= pos.y <= POS_MAX,
            i > 0 ==> 0 <= pos.x && pos.x + ew <= bw && 0 <= pos.y && pos.y + eh <= bh,
        decreases steps - i,
    {
        proof {
            lemma_frame_velocity(px0, py0, vx0, vy0, ew, eh, bw, bh, margin as int, sd as int, i as nat);
        }
        let adx = advance(vel.x, sd);
        let ady = advance(vel.y, sd);
        pos.x = pos.x + adx;
        pos.y = pos.y + ady;

        let mut sub_bx = false;
        let mut sub_by = false;
        let ghost ix: int = pos.x as int;
        let ghost iy: int = pos.y as int;

        if pos.x <= 0 {
            pos.x = 0;
            vel.x = abs64(vel.x);
            sub_bx = true;
        } else if pos.x + extent.width >= bounds.width {
            pos.x = bounds.width - extent.width;
            vel.x = -abs64(vel.x);
            sub_bx = true;
        }

        if pos.y <= 0 {
            pos.y = 0;
            vel.y = abs64(vel.y);
            sub_by = true;
        } else if pos.y + extent.height >= bounds.height {
            pos.y = bounds.height - extent.height;
            vel.y = -abs64(vel.y);
            sub_by = true;
        }

        if sub_bx {
            bounced_x = true;
        }
        if sub_by {
            bounced_y = true;
        }

        let near_left = pos.x <= margin;
        let near_right = pos.x + extent.width >= bounds.width - margin;
        let near_top = pos.y <= margin;
        let near_bottom = pos.y + extent.height >= bounds.height - margin;
        let is_near_corner = (near_left || near_right) && (near_top || near_bottom);

        if (sub_bx && sub_by) || (is_near_corner && (sub_bx || sub_by)) {
            corner_hit = true;
        }

        proof {
            let prev = frame_model(px0, py0, vx0, vy0, ew, eh, bw, bh, margin as int, sd as int, i as nat);
            let s = sub_step_model(prev.0, prev.1, prev.2, prev.3, ew, eh, bw, bh, margin as int, sd as int);
            assert(sub_bx == hits_wall(ix, ew, bw));
            assert(sub_by == hits_wall(iy, eh, bh));
            assert(frame_model(px0, py0, vx0, vy0, ew, eh, bw, bh, margin as int, sd as int, (i + 1) as nat)
                == (s.0, s.1, s.2, s.3, prev.4 || s.4, prev.5 || s.5, prev.6 || s.6));
        }
        i = i + 1;
    }
    proof {
        lemma_frame_in_box(px0, py0, vx0, vy0, ew, eh, bw, bh, margin as int, sd as int, steps as nat);
        lemma_frame_velocity(px0, py0, vx0, vy0, ew, eh, bw, bh, margin as int, sd as int, steps as nat);
        lemma_frame_corner_needs_bounce(
            px0,
            py0,
            vx0,
            vy0,
            ew,
            eh,
            bw,
            bh,
            margin as int,
            sd as int,
            steps as nat,
        );
    }
    FrameEvents { bounced_x, bounced_y, corner_hit }
}

} // verus!
