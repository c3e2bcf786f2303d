//! Logo colors: the resting palette, the corner-flash palette, the RGBA
//! value of each color, and the random resting-color selection, which
//! never returns the color it was asked to exclude.

use vstd::prelude::*;

verus! {

/// The colors the logo can take.
#[derive(Clone, Copy, PartialEq, Eq, Structural, Debug)]
pub enum LogoColor {
    Red,
    Orange,
    Yellow,
    Lime,
    Cyan,
    Blue,
    Violet,
    Magenta,
    Pink,
    White,
    Gold,
}

/// An RGBA color, 8 bits per channel.
#[derive(Clone, Copy, PartialEq, Eq, Structural, Debug)]
pub struct Rgba {
    pub r: u8,
    pub g: u8,
    pub b: u8,
    pub a: u8,
}

/// The palette a resting color is drawn from; `Gold` is reserved for
/// corner flashes and is not in it.
pub open spec fn resting_palette() -> Seq<LogoColor> {
    seq![
        LogoColor::Red,
        LogoColor::Orange,
        LogoColor::Yellow,
        LogoColor::Lime,
        LogoColor::Cyan,
        LogoColor::Blue,
        LogoColor::Violet,
        LogoColor::Magenta,
        LogoColor::Pink,
        LogoColor::White,
    ]
}

/// The ordered palette the flash animation cycles through.
pub open spec fn flash_palette() -> Seq<LogoColor> {
    seq![
        LogoColor::Gold,
        LogoColor::Red,
        LogoColor::Yellow,
        LogoColor::Lime,
        LogoColor::Cyan,
        LogoColor::Blue,
        LogoColor::Magenta,
    ]
}

/// Index of a color in the resting palette, or -1 for `Gold`, which is
/// not in it.
pub open spec fn resting_index_of(c: LogoColor) -> int {
    match c {
        LogoColor::Red => 0,
        LogoColor::Orange => 1,
        LogoColor::Yellow => 2,
        LogoColor::Lime => 3,
        LogoColor::Cyan => 4,
        LogoColor::Blue => 5,
        LogoColor::Violet => 6,
        LogoColor::Magenta => 7,
        LogoColor::Pink => 8,
        LogoColor::White => 9,
        LogoColor::Gold => -1,
    }
}

/// The RGBA value of each logo color.
pub open spec fn rgba_of(c: LogoColor) -> Rgba {
    match c {
        LogoColor::Red => Rgba { r: 255, g: 62, b: 62, a: 255 },
        LogoColor::Orange => Rgba { r: 255, g: 146, b: 44, a: 255 },
        LogoColor::Yellow => Rgba { r: 255, g: 218, b: 56, a: 255 },
        LogoColor::Lime => Rgba { r: 128, g: 255, b: 74, a: 255 },
        LogoColor::Cyan => Rgba { r: 66, g: 233, b: 255, a: 255 },
        LogoColor::Blue => Rgba { r: 70, g: 132, b: 255, a: 255 },
        LogoColor::Violet => Rgba { r: 140, g: 98, b: 255, a: 255 },
        LogoColor::Magenta => Rgba { r: 255, g: 74, b: 234, a: 255 },
        LogoColor::Pink => Rgba { r: 255, g: 104, b: 164, a: 255 },
        LogoColor::White => Rgba { r: 255, g: 255, b: 255, a: 255 },
        LogoColor::Gold => Rgba { r: 255, g: 210, b: 60, a: 255 },
    }
}

impl LogoColor {
    /// The RGBA value used to tint the logo when drawn in this color.
    pub fn color(self) -> (c: Rgba)
        ensures
            c == rgba_of(self),
    {
        match self {
            LogoColor::Red => Rgba { r: 255, g: 62, b: 62, a: 255 },
            LogoColor::Orange => Rgba { r: 255, g: 146, b: 44, a: 255 },
            LogoColor::Yellow => Rgba { r: 255, g: 218, b: 56, a: 255 },
            LogoColor::Lime => Rgba { r: 128, g: 255, b: 74, a: 255 },
            LogoColor::Cyan => Rgba { r: 66, g: 233, b: 255, a: 255 },
            LogoColor::Blue => Rgba { r: 70, g: 132, b: 255, a: 255 },
            LogoColor::Violet => Rgba { r: 140, g: 98, b: 255, a: 255 },
            LogoColor::Magenta => Rgba { r: 255, g: 74, b: 234, a: 255 },
            LogoColor::Pink => Rgba { r: 255, g: 104, b: 164, a: 255 },
            LogoColor::White => Rgba { r: 255, g: 255, b: 255, a: 255 },
            LogoColor::Gold => Rgba { r: 255, g: 210, b: 60, a: 255 },
        }
    }
}

/// The resting color selected for a random draw, excluding one color:
/// the draw indexes the palette with the excluded entry removed, so the
/// result always differs from the excluded color. When the excluded
/// color is `Gold` (not in the palette) the whole palette is available.
pub open spec fn picked_color(excluding: LogoColor, draw: int) -> LogoColor {
    let ei = resting_index_of(excluding);
    if ei < 0 {
        resting_palette()[draw % 10]
    } else {
        let k = draw % 9;
        if k < ei {
            resting_palette()[k]
        } else {
            resting_palette()[k + 1]
        }
    }
}

/// The resting-palette color at a given index.
fn resting_color_at(i: u64) -> (c: LogoColor)
    requires
        i < 10,
    ensures
        c == resting_palette()[i as int],
{
    match i {
        0 => LogoColor::Red,
        1 => LogoColor::Orange,
        2 => LogoColor::Yellow,
        3 => LogoColor::Lime,
        4 => LogoColor::Cyan,
        5 => LogoColor::Blue,
        6 => LogoColor::Violet,
        7 => LogoColor::Magenta,
        8 => LogoColor::Pink,
        _ => LogoColor::White,
    }
}

/// Pick a new resting color from a random draw, never the excluded one.
/// The caller supplies the draw (the simulator takes no randomness of
/// its own); every color of the palette other than the excluded one is
/// reached by some draw.
pub fn random_logo_color(excluding: LogoColor, draw: u64) -> (c: LogoColor)
    ensures
        c == picked_color(excluding, draw as int),
        c != excluding,
        resting_palette().contains(c),
{
    let ei: i64 = match excluding {
        LogoColor::Red => 0,
        LogoColor::Orange => 1,
        LogoColor::Yellow => 2,
        LogoColor::Lime => 3,
        LogoColor::Cyan => 4,
        LogoColor::Blue => 5,
        LogoColor::Violet => 6,
        LogoColor::Magenta => 7,
        LogoColor::Pink => 8,
        LogoColor::White => 9,
        LogoColor::Gold => -1,
    };
    let c = if ei < 0 {
        resting_color_at(draw % 10)
    } else {
        let k = draw % 9;
        if (k as i64) < ei {
            resting_color_at(k)
        } else {
            resting_color_at(k + 1)
        }
    };
    proof {
        assert(resting_palette().contains(c)) by {
            assert(resting_palette()[resting_index_of(c)] == c);
        }
    }
    c
}

/// Every color of the resting palette other than the excluded one is
/// the pick of some draw: selection is over the whole reduced palette.
pub proof fn lemma_pick_covers_palette(excluding: LogoColor, target: LogoColor)
    requires
        resting_palette().contains(target),
        target != excluding,
    ensures
        exists|draw: int| 0 <= draw < 10 && picked_color(excluding, draw) == target,
{
    let ti = resting_index_of(target);
    assert(resting_palette()[ti] == target);
    let ei = resting_index_of(excluding);
    if ei < 0 {
        assert(picked_color(excluding, ti) == target);
    } else if ti < ei {
        assert(picked_color(excluding, ti) == target);
    } else {
        assert(picked_color(excluding, ti - 1) == target);
    }
}

} // verus!
