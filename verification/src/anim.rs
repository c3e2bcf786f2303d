//! The color/animation state machine: a corner hit starts a fixed-length
//! flash that cycles through the flash palette by step index; a plain
//! wall bounce picks a new resting color; otherwise the resting color is
//! drawn.

use vstd::prelude::*;

use crate::color::{flash_palette, picked_color, random_logo_color, LogoColor};
use crate::sim::FrameEvents;

verus! {

/// How many frames a corner flash lasts.
pub const CORNER_FLASH_FRAMES: u8 = 12;

/// The animation state carried between frames: the resting color shown
/// when no flash is active, and the flash countdown and step index.
#[derive(Clone, Copy, PartialEq, Eq, Structural, Debug)]
pub struct AnimState {
    pub resting: LogoColor,
    pub flash_frames: u8,
    pub flash_step: usize,
}

/// The resting color after the frame's events: a corner hit rests on
/// `Gold`, a plain bounce picks a new color excluding the current one,
/// and a quiet frame changes nothing.
pub open spec fn resting_after(r: LogoColor, corner: bool, bounced: bool, draw: int) -> LogoColor {
    if corner {
        LogoColor::Gold
    } else if bounced {
        picked_color(r, draw)
    } else {
        r
    }
}

/// The flash countdown after the frame's events: a corner hit starts
/// (or restarts) a full flash.
pub open spec fn frames_after_events(f: int, corner: bool) -> int {
    if corner {
        CORNER_FLASH_FRAMES as int
    } else {
        f
    }
}

/// The flash step index after the frame's events: a corner hit resets
/// it.
pub open spec fn step_after_events(s: int, corner: bool) -> int {
    if corner {
        0
    } else {
        s
    }
}

/// The color drawn this frame: while the flash countdown runs, the
/// flash palette indexed by step modulo its length; otherwise the
/// resting color.
pub open spec fn drawn_color(r: LogoColor, f: int, s: int) -> LogoColor {
    if f > 0 {
        flash_palette()[s % 7]
    } else {
        r
    }
}

/// The flash countdown after drawing one frame.
pub open spec fn frames_after_tick(f: int) -> int {
    if f > 0 {
        f - 1
    } else {
        f
    }
}

/// The flash step index after drawing one frame.
pub open spec fn step_after_tick(f: int, s: int) -> int {
    if f > 0 {
        s + 1
    } else {
        s
    }
}

/// The (countdown, step) pair after `k` quiet frames (no bounce, no
/// corner hit).
pub open spec fn ticked(f: int, s: int, k: nat) -> (int, int)
    decreases k,
{
    if k == 0 {
        (f, s)
    } else {
        let p = ticked(f, s, (k - 1) as nat);
        (frames_after_tick(p.0), step_after_tick(p.0, p.1))
    }
}

impl AnimState {
    /// The state at startup: resting on the given color, no flash.
    pub fn new(initial: LogoColor) -> (s: AnimState)
        ensures
            s.resting == initial,
            s.flash_frames == 0,
            s.flash_step == 0,
    {
        AnimState { resting: initial, flash_frames: 0, flash_step: 0 }
    }
}

/// The flash-palette color at a given step index, wrapping around.
pub fn flash_color(step: usize) -> (c: LogoColor)
    ensures
        c == flash_palette()[step as int % 7],
{
    match step % 7 {
        0 => LogoColor::Gold,
        1 => LogoColor::Red,
        2 => LogoColor::Yellow,
        3 => LogoColor::Lime,
        4 => LogoColor::Cyan,
        5 => LogoColor::Blue,
        _ => LogoColor::Magenta,
    }
}

/// Advance the animation by one frame, given the frame's bounce events
/// and a random draw for the resting-color pick, and return the color
/// to draw the logo with this frame. A corner hit sets the resting
/// color to `Gold` and starts a full flash; otherwise a wall bounce
/// picks a new resting color, never the current one. While a flash
/// runs, the drawn color cycles through the flash palette by step and
/// the countdown falls by one per frame; once it reaches zero the
/// resting color is drawn again.
pub fn update_animation(st: &mut AnimState, ev: FrameEvents, draw: u64) -> (c: LogoColor)
    requires
        old(st).flash_step < usize::MAX,
    ensures
        ({
            let bounced = ev.bounced_x || ev.bounced_y;
            let r1 = resting_after(old(st).resting, ev.corner_hit, bounced, draw as int);
            let f1 = frames_after_events(old(st).flash_frames as int, ev.corner_hit);
            let s1 = step_after_events(old(st).flash_step as int, ev.corner_hit);
            &&& c == drawn_color(r1, f1, s1)
            &&& final(st).resting == r1
            &&& final(st).flash_frames as int == frames_after_tick(f1)
            &&& final(st).flash_step as int == step_after_tick(f1, s1)
        }),
{
    if ev.corner_hit {
        st.resting = LogoColor::Gold;
        st.flash_frames = CORNER_FLASH_FRAMES;
        st.flash_step = 0;
    } else if ev.bounced_x || ev.bounced_y {
        st.resting = random_logo_color(st.resting, draw);
    }
    if st.flash_frames > 0 {
        let c = flash_color(st.flash_step);
        st.flash_frames = st.flash_frames - 1;
        st.flash_step = st.flash_step + 1;
        c
    } else {
        st.resting
    }
}

/// A flash of `f` frames runs for exactly `f` frames: through the first
/// `f` quiet frames the countdown is still positive and the drawn color
/// is the flash palette at the step index (so the cycle is
/// `flash_palette()[s % 7]`, `[(s+1) % 7]`, ... wrapping); at frame `f`
/// the countdown has reached zero and the resting color is drawn again,
/// and it stays there. The flash palette starts with gold, which is
/// also the resting color a corner hit sets, so a flash frame can
/// coincide with the resting color; what the law pins down is the
/// palette cycle and the exact length.
pub proof fn lemma_flash_runs_exactly(r: LogoColor, f: int, s: int, k: nat)
    requires
        0 <= f,
        0 <= s,
        k <= f,
    ensures
        k < f ==> ticked(f, s, k).0 == f - k && ticked(f, s, k).1 == s + k,
        k < f ==> drawn_color(r, ticked(f, s, k).0, ticked(f, s, k).1)
            == flash_palette()[(s + k) % 7],
        k == f ==> ticked(f, s, k).0 == 0,
        k == f ==> drawn_color(r, ticked(f, s, k).0, ticked(f, s, k).1) == r,
    decreases k,
{
    if k > 0 {
        lemma_flash_runs_exactly(r, f, s, (k - 1) as nat);
    }
}

/// Once a flash has ended, quiet frames keep drawing the resting color:
/// the countdown stays at zero.
pub proof fn lemma_flash_stays_ended(r: LogoColor, s: int, k: nat)
    ensures
        ticked(0, s, k).0 == 0,
        drawn_color(r, ticked(0, s, k).0, ticked(0, s, k).1) == r,
    decreases k,
{
    if k > 0 {
        lemma_flash_stays_ended(r, s, (k - 1) as nat);
    }
}

} // verus!
