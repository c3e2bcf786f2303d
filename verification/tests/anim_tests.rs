use raydvd::anim::{flash_color, update_animation, AnimState, CORNER_FLASH_FRAMES};
use raydvd::color::{random_logo_color, LogoColor, Rgba};
use raydvd::geom::{center_of, Extent, TracePath, Vec2};
use raydvd::sim::FrameEvents;

const QUIET: FrameEvents = FrameEvents { bounced_x: false, bounced_y: false, corner_hit: false };
const CORNER: FrameEvents = FrameEvents { bounced_x: true, bounced_y: true, corner_hit: true };
const BOUNCE: FrameEvents = FrameEvents { bounced_x: true, bounced_y: false, corner_hit: false };

#[test]
fn quiet_frames_draw_resting_color() {
    let mut st = AnimState::new(LogoColor::Cyan);
    for _ in 0..10 {
        let c = update_animation(&mut st, QUIET, 0);
        assert_eq!(c, LogoColor::Cyan);
    }
}

#[test]
fn corner_hit_flashes_exactly_n_frames_then_rests_on_gold() {
    let mut st = AnimState::new(LogoColor::Cyan);
    let c = update_animation(&mut st, CORNER, 0);
    // the first flash frame is drawn at once
    assert_eq!(c, LogoColor::Gold);
    assert_eq!(st.resting, LogoColor::Gold);
    let flash = [
        LogoColor::Gold,
        LogoColor::Red,
        LogoColor::Yellow,
        LogoColor::Lime,
        LogoColor::Cyan,
        LogoColor::Blue,
        LogoColor::Magenta,
    ];
    // the remaining 11 flash frames cycle through the palette by index
    for k in 1..CORNER_FLASH_FRAMES as usize {
        let c = update_animation(&mut st, QUIET, 0);
        assert_eq!(c, flash[k % 7]);
    }
    assert_eq!(st.flash_frames, 0);
    // from frame 12 on, the resting color (gold) is drawn again
    for _ in 0..5 {
        let c = update_animation(&mut st, QUIET, 0);
        assert_eq!(c, LogoColor::Gold);
    }
}

#[test]
fn corner_hit_restarts_a_running_flash() {
    let mut st = AnimState::new(LogoColor::Red);
    update_animation(&mut st, CORNER, 0);
    update_animation(&mut st, QUIET, 0);
    update_animation(&mut st, QUIET, 0);
    assert_eq!(st.flash_frames, CORNER_FLASH_FRAMES - 3);
    let c = update_animation(&mut st, CORNER, 0);
    assert_eq!(c, LogoColor::Gold);
    assert_eq!(st.flash_frames, CORNER_FLASH_FRAMES - 1);
    assert_eq!(st.flash_step, 1);
}

#[test]
fn wall_bounce_changes_resting_color() {
    let mut st = AnimState::new(LogoColor::Cyan);
    let c = update_animation(&mut st, BOUNCE, 4);
    assert_ne!(c, LogoColor::Cyan);
    assert_eq!(c, st.resting);
}

#[test]
fn random_color_never_repeats_previous() {
    // every draw avoids the excluded color
    for draw in 0..1000u64 {
        let c = random_logo_color(LogoColor::Blue, draw);
        assert_ne!(c, LogoColor::Blue);
        assert_ne!(c, LogoColor::Gold);
    }
    // and the same through the animation update
    let mut st = AnimState::new(LogoColor::White);
    for draw in 0..1000u64 {
        st.flash_frames = 0;
        let before = st.resting;
        let c = update_animation(&mut st, BOUNCE, draw);
        assert_ne!(c, before);
    }
}

#[test]
fn every_other_color_is_reachable() {
    let mut seen = [false; 10];
    for draw in 0..9u64 {
        let c = random_logo_color(LogoColor::Cyan, draw);
        let idx = match c {
            LogoColor::Red => 0,
            LogoColor::Orange => 1,
            LogoColor::Yellow => 2,
            LogoColor::Lime => 3,
            LogoColor::Cyan => 4,
            LogoColor::Blue => 5,
            LogoColor::Violet => 6,
            LogoColor::Magenta => 7,
            LogoColor::Pink => 8,
            LogoColor::White => 9,
            LogoColor::Gold => panic!("gold is not in the resting palette"),
        };
        seen[idx] = true;
    }
    assert!(!seen[4]);
    for (idx, s) in seen.iter().enumerate() {
        assert_eq!(*s, idx != 4);
    }
}

#[test]
fn flash_palette_wraps_by_index() {
    assert_eq!(flash_color(0), LogoColor::Gold);
    assert_eq!(flash_color(6), LogoColor::Magenta);
    assert_eq!(flash_color(7), LogoColor::Gold);
    assert_eq!(flash_color(13), LogoColor::Magenta);
}

#[test]
fn rgba_values_match_palette() {
    assert_eq!(LogoColor::Red.color(), Rgba { r: 255, g: 62, b: 62, a: 255 });
    assert_eq!(LogoColor::Gold.color(), Rgba { r: 255, g: 210, b: 60, a: 255 });
    assert_eq!(LogoColor::White.color(), Rgba { r: 255, g: 255, b: 255, a: 255 });
    assert_eq!(LogoColor::Cyan.color(), Rgba { r: 66, g: 233, b: 255, a: 255 });
}

#[test]
fn trace_appends_only_when_enabled() {
    let mut on = TracePath::new(true);
    on.record(Vec2 { x: 1, y: 2 });
    on.record(Vec2 { x: 3, y: 4 });
    assert_eq!(on.points, vec![Vec2 { x: 1, y: 2 }, Vec2 { x: 3, y: 4 }]);

    let mut off = TracePath::new(false);
    off.record(Vec2 { x: 1, y: 2 });
    assert!(off.points.is_empty());
}

#[test]
fn center_of_box() {
    let c = center_of(
        Vec2 { x: 700_000, y: 500_000 },
        Extent { width: 100_000, height: 100_000 },
    );
    assert_eq!(c, Vec2 { x: 750_000, y: 550_000 });
}
