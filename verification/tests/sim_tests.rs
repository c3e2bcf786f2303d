use raydvd::geom::{Bounds, Extent, Vec2};
use raydvd::sim::{simulate_frame, FrameEvents};

// Bounds 800x600 px, logo 100x100 px, position (750, 550) px, velocity
// (+200, +200) px/s, margin 5 px, dt 50 ms (one sub-step): both axes
// clamp and bounce, the corner hit is flagged, and the velocity becomes
// (-200, -200) px/s.
#[test]
fn corner_example_one_substep() {
    let mut pos = Vec2 { x: 750_000, y: 550_000 };
    let mut vel = Vec2 { x: 200_000, y: 200_000 };
    let bounds = Bounds { width: 800_000, height: 600_000 };
    let extent = Extent { width: 100_000, height: 100_000 };
    let ev = simulate_frame(&mut pos, &mut vel, bounds, extent, 5_000, 50);
    assert_eq!(pos, Vec2 { x: 700_000, y: 500_000 });
    assert_eq!(vel, Vec2 { x: -200_000, y: -200_000 });
    assert_eq!(ev, FrameEvents { bounced_x: true, bounced_y: true, corner_hit: true });
}

#[test]
fn free_flight_no_events() {
    let mut pos = Vec2 { x: 100_000, y: 100_000 };
    let mut vel = Vec2 { x: 200_000, y: 150_000 };
    let bounds = Bounds { width: 800_000, height: 600_000 };
    let extent = Extent { width: 100_000, height: 100_000 };
    let ev = simulate_frame(&mut pos, &mut vel, bounds, extent, 5_000, 10);
    // 10 ms at (200, 150) px/s moves (2, 1.5) px
    assert_eq!(pos, Vec2 { x: 102_000, y: 101_500 });
    assert_eq!(vel, Vec2 { x: 200_000, y: 150_000 });
    assert_eq!(ev, FrameEvents { bounced_x: false, bounced_y: false, corner_hit: false });
}

#[test]
fn left_wall_bounce_flips_x_only() {
    let mut pos = Vec2 { x: 1_000, y: 300_000 };
    let mut vel = Vec2 { x: -200_000, y: 150_000 };
    let bounds = Bounds { width: 800_000, height: 600_000 };
    let extent = Extent { width: 100_000, height: 100_000 };
    let ev = simulate_frame(&mut pos, &mut vel, bounds, extent, 5_000, 10);
    assert_eq!(pos.x, 0);
    assert_eq!(vel, Vec2 { x: 200_000, y: 150_000 });
    assert!(ev.bounced_x);
    assert!(!ev.bounced_y);
    // far from the top and bottom edges: no corner hit
    assert!(!ev.corner_hit);
}

#[test]
fn single_axis_bounce_within_margin_is_corner() {
    // bounce on the left wall while the box sits 3 px above the bottom
    // edge, within a 5 px margin: a corner hit
    let mut pos = Vec2 { x: 1_000, y: 497_000 };
    let mut vel = Vec2 { x: -200_000, y: 100_000 };
    let bounds = Bounds { width: 800_000, height: 600_000 };
    let extent = Extent { width: 100_000, height: 100_000 };
    let ev = simulate_frame(&mut pos, &mut vel, bounds, extent, 5_000, 10);
    assert!(ev.bounced_x);
    assert!(!ev.bounced_y);
    assert!(ev.corner_hit);
}

#[test]
fn single_axis_bounce_far_from_corner_is_no_corner() {
    let mut pos = Vec2 { x: 1_000, y: 250_000 };
    let mut vel = Vec2 { x: -200_000, y: 100_000 };
    let bounds = Bounds { width: 800_000, height: 600_000 };
    let extent = Extent { width: 100_000, height: 100_000 };
    let ev = simulate_frame(&mut pos, &mut vel, bounds, extent, 5_000, 10);
    assert!(ev.bounced_x);
    assert!(!ev.corner_hit);
}

#[test]
fn simultaneous_bounce_is_corner_even_with_zero_margin() {
    let mut pos = Vec2 { x: 750_000, y: 550_000 };
    let mut vel = Vec2 { x: 200_000, y: 200_000 };
    let bounds = Bounds { width: 800_000, height: 600_000 };
    let extent = Extent { width: 100_000, height: 100_000 };
    let ev = simulate_frame(&mut pos, &mut vel, bounds, extent, 0, 50);
    assert!(ev.bounced_x && ev.bounced_y && ev.corner_hit);
}

#[test]
fn long_frame_stays_in_box() {
    // 3 seconds at high speed: sub-stepping keeps the box inside the
    // walls instead of tunneling through them
    let mut pos = Vec2 { x: 400_000, y: 300_000 };
    let mut vel = Vec2 { x: 900_000, y: 700_000 };
    let bounds = Bounds { width: 800_000, height: 600_000 };
    let extent = Extent { width: 100_000, height: 100_000 };
    let ev = simulate_frame(&mut pos, &mut vel, bounds, extent, 5_000, 3_000);
    assert!(0 <= pos.x && pos.x + 100_000 <= 800_000);
    assert!(0 <= pos.y && pos.y + 100_000 <= 600_000);
    assert!(ev.bounced_x && ev.bounced_y);
    // speed magnitude is untouched by bounces
    assert_eq!(vel.x.abs(), 900_000);
    assert_eq!(vel.y.abs(), 700_000);
}

#[test]
fn zero_dt_still_clamps() {
    // a position outside the walls is clamped back even on a
    // zero-length frame: at least one sub-step always runs
    let mut pos = Vec2 { x: 900_000, y: -50_000 };
    let mut vel = Vec2 { x: 100_000, y: -100_000 };
    let bounds = Bounds { width: 800_000, height: 600_000 };
    let extent = Extent { width: 100_000, height: 100_000 };
    let ev = simulate_frame(&mut pos, &mut vel, bounds, extent, 5_000, 0);
    assert_eq!(pos, Vec2 { x: 700_000, y: 0 });
    assert_eq!(vel, Vec2 { x: -100_000, y: 100_000 });
    assert!(ev.bounced_x && ev.bounced_y);
}

#[test]
fn very_high_speed_still_moves() {
    // 24 000 px/s across a 16 ms frame: many sub-steps, yet each keeps
    // a nonzero duration, so the logo moves and bounces
    let mut pos = Vec2 { x: 500_000, y: 100_000 };
    let mut vel = Vec2 { x: 24_000_000, y: 1_000 };
    let bounds = Bounds { width: 800_000, height: 600_000 };
    let extent = Extent { width: 100_000, height: 100_000 };
    let ev = simulate_frame(&mut pos, &mut vel, bounds, extent, 5_000, 16);
    assert!(pos != Vec2 { x: 500_000, y: 100_000 });
    assert!(ev.bounced_x);
    assert_eq!(vel.x.abs(), 24_000_000);
    assert!(0 <= pos.x && pos.x + 100_000 <= 800_000);
}

#[test]
fn velocity_never_zeroed() {
    let bounds = Bounds { width: 800_000, height: 600_000 };
    let extent = Extent { width: 100_000, height: 100_000 };
    let mut pos = Vec2 { x: 10_000, y: 10_000 };
    let mut vel = Vec2 { x: -300_000, y: -250_000 };
    for _ in 0..100 {
        simulate_frame(&mut pos, &mut vel, bounds, extent, 5_000, 16);
        assert!(vel.x != 0 && vel.y != 0);
        assert_eq!(vel.x.abs(), 300_000);
        assert_eq!(vel.y.abs(), 250_000);
    }
}
