//! Startup configuration: parsing and validation of the speed
//! multiplier and the corner margin, and the initial position and
//! velocity derived from them. The speed multiplier is a decimal
//! number held in thousandths; the corner margin is a whole number of
//! pixels.

use vstd::prelude::*;

use crate::geom::{Bounds, Extent, Vec2};

verus! {

/// Base horizontal speed, in pixels per second, at multiplier one.
pub const SPEED_X_PX: i64 = 240;

/// Base vertical speed, in pixels per second, at multiplier one.
pub const SPEED_Y_PX: i64 = 180;

/// Largest accepted speed multiplier, in thousandths (a multiplier of
/// one thousand): keeps every derived velocity within the simulator's
/// limits.
pub const SPEED_MILLI_MAX: i64 = 1_000_000;

/// Width the logo is drawn at, in pixels; the texture is scaled to it.
pub const LOGO_DRAW_WIDTH_PX: i64 = 240;

/// Widest or tallest texture accepted, in pixels.
pub const TEXTURE_SIDE_MAX: i64 = 100_000;

/// Default corner margin, in pixels.
pub const DEFAULT_CORNER_MARGIN_PX: i64 = 5;

/// Largest accepted corner margin, in pixels.
pub const MARGIN_PX_MAX: i64 = 2_147_483_647;

/// Smallest margin value whose magnitude the margin parser still
/// accepts when negative.
pub const MARGIN_PX_MIN: i64 = -2_147_483_648;

/// Why a configuration value was rejected.
#[derive(Clone, Copy, PartialEq, Eq, Structural, Debug)]
pub enum ConfigError {
    /// The speed multiplier was not a decimal number.
    SpeedNotANumber,
    /// The speed multiplier was a decimal number, but not greater than
    /// zero or too large.
    SpeedOutOfRange,
    /// The corner margin was not a whole number in range.
    MarginNotANumber,
    /// The corner margin was a whole number below zero.
    MarginNegative,
}

/// The message reported for each rejection.
pub open spec fn message_of(e: ConfigError) -> Seq<char> {
    match e {
        ConfigError::SpeedNotANumber => "not a valid float"@,
        ConfigError::SpeedOutOfRange => "speed must be a finite value greater than 0"@,
        ConfigError::MarginNotANumber => "not a valid integer"@,
        ConfigError::MarginNegative => "corner margin must be an integer >= 0"@,
    }
}

impl ConfigError {
    /// The human-readable validation message for this rejection.
    pub fn message(&self) -> (m: &'static str)
        ensures
            m@ == message_of(*self),
    {
        match self {
            ConfigError::SpeedNotANumber => "not a valid float",
            ConfigError::SpeedOutOfRange => "speed must be a finite value greater than 0",
            ConfigError::MarginNotANumber => "not a valid integer",
            ConfigError::MarginNegative => "corner margin must be an integer >= 0",
        }
    }
}

/// True for an ASCII decimal digit.
pub open spec fn is_digit(c: char) -> bool {
    '0' <= c && c <= '9'
}

/// The value of a decimal digit.
pub open spec fn digit_val(c: char) -> int {
    c as int - '0' as int
}

/// True when every character of the sequence is a decimal digit.
pub open spec fn all_digits(s: Seq<char>) -> bool {
    forall|j: int| 0 <= j < s.len() ==> is_digit(s[j])
}

/// The value of a sequence of decimal digits, most significant first.
pub open spec fn uint_val(s: Seq<char>) -> int
    decreases s.len(),
{
    if s.len() == 0 {
        0
    } else {
        uint_val(s.drop_last()) * 10 + digit_val(s.last())
    }
}

/// Index of the first `.` in the sequence, or its length if there is
/// none.
pub open spec fn first_dot(s: Seq<char>) -> int
    decreases s.len(),
{
    if s.len() == 0 {
        0
    } else if s[0] == '.' {
        0
    } else {
        1 + first_dot(s.drop_first())
    }
}

/// True when the (unsigned) text is a decimal number: digits, at most
/// one `.`, and at least one digit somewhere.
pub open spec fn valid_body(s: Seq<char>) -> bool {
    let d = first_dot(s);
    let intpart = s.subrange(0, d);
    let frac = if d < s.len() {
        s.subrange(d + 1, s.len() as int)
    } else {
        Seq::<char>::empty()
    };
    all_digits(intpart) && all_digits(frac) && intpart.len() + frac.len() >= 1
}

/// The value of a fraction part in thousandths: the first three digits,
/// zero-padded; further digits are beyond the fixed-point resolution
/// and ignored.
pub open spec fn frac_milli(s: Seq<char>) -> int {
    (if s.len() >= 1 {
        digit_val(s[0]) * 100
    } else {
        0
    }) + (if s.len() >= 2 {
        digit_val(s[1]) * 10
    } else {
        0
    }) + (if s.len() >= 3 {
        digit_val(s[2])
    } else {
        0
    })
}

/// The value of an (unsigned) decimal number in thousandths.
pub open spec fn body_milli(s: Seq<char>) -> int {
    let d = first_dot(s);
    let intpart = s.subrange(0, d);
    let frac = if d < s.len() {
        s.subrange(d + 1, s.len() as int)
    } else {
        Seq::<char>::empty()
    };
    uint_val(intpart) * 1000 + frac_milli(frac)
}

/// True when the text starts with an explicit sign.
pub open spec fn has_sign(s: Seq<char>) -> bool {
    s.len() > 0 && (s[0] == '-' || s[0] == '+')
}

/// The text with any leading sign removed.
pub open spec fn body_of(s: Seq<char>) -> Seq<char> {
    if has_sign(s) {
        s.drop_first()
    } else {
        s
    }
}

/// -1 for a leading minus sign, 1 otherwise.
pub open spec fn sign_of(s: Seq<char>) -> int {
    if s.len() > 0 && s[0] == '-' {
        -1
    } else {
        1
    }
}

/// True when the whole text is a decimal number with an optional sign.
pub open spec fn valid_decimal(s: Seq<char>) -> bool {
    valid_body(body_of(s))
}

/// The signed value of a decimal text, in thousandths.
pub open spec fn decimal_milli(s: Seq<char>) -> int {
    sign_of(s) * body_milli(body_of(s))
}

/// True when the whole text is a whole number with an optional sign.
pub open spec fn valid_integer(s: Seq<char>) -> bool {
    let b = body_of(s);
    b.len() >= 1 && all_digits(b)
}

/// The signed value of a whole-number text.
pub open spec fn integer_val(s: Seq<char>) -> int {
    sign_of(s) * uint_val(body_of(s))
}

/// Where the first dot lies: at or before any dot, after nothing but
/// non-dots, and on a dot if within the sequence.
proof fn lemma_first_dot(s: Seq<char>)
    ensures
        0 <= first_dot(s) <= s.len(),
        first_dot(s) < s.len() ==> s[first_dot(s)] == '.',
        forall|j: int| 0 <= j < first_dot(s) ==> s[j] != '.',
    decreases s.len(),
{
    if s.len() > 0 && s[0] != '.' {
        lemma_first_dot(s.drop_first());
        assert forall|j: int| 0 <= j < first_dot(s) implies s[j] != '.' by {
            if j > 0 {
                assert(s.drop_first()[j - 1] == s[j]);
            }
        }
    }
}

/// Appending one digit multiplies the accumulated value by ten and adds
/// the digit.
proof fn lemma_uint_val_push(s: Seq<char>, start: int, i: int)
    requires
        0 <= start <= i < s.len(),
    ensures
        uint_val(s.subrange(start, i + 1)) == uint_val(s.subrange(start, i)) * 10 + digit_val(
            s[i],
        ),
{
    assert(s.subrange(start, i + 1).drop_last() =~= s.subrange(start, i));
    assert(s.subrange(start, i + 1).last() == s[i]);
}

/// A sequence of digits has a non-negative value.
proof fn lemma_uint_val_nonneg(s: Seq<char>)
    requires
        all_digits(s),
    ensures
        uint_val(s) >= 0,
    decreases s.len(),
{
    if s.len() > 0 {
        assert(all_digits(s.drop_last())) by {
            assert forall|j: int| 0 <= j < s.len() - 1 implies is_digit(s.drop_last()[j]) by {
                assert(s.drop_last()[j] == s[j]);
            }
        }
        lemma_uint_val_nonneg(s.drop_last());
    }
}

/// Parse the speed multiplier: a decimal number, optionally signed,
/// returned in thousandths (so `2.5` is 2500). Digits of the fraction
/// beyond the third are below the fixed-point resolution and truncated.
/// Accepted exactly when the text is a decimal number whose value in
/// thousandths lies in `1 ..= SPEED_MILLI_MAX`; a malformed text is
/// reported apart from a zero, negative or oversized value.
pub fn parse_speed_multiplier(input: &str) -> (r: Result<i64, ConfigError>)
    ensures
        ({
            let s = input@;
            match r {
                Ok(v) => valid_decimal(s) && v == decimal_milli(s) && 0 < v <= SPEED_MILLI_MAX,
                Err(ConfigError::SpeedNotANumber) => !valid_decimal(s),
                Err(ConfigError::SpeedOutOfRange) => valid_decimal(s) && !(0 < decimal_milli(s)
                    <= SPEED_MILLI_MAX),
                Err(_) => false,
            }
        }),
{
    let ghost s = input@;
    let n = input.unicode_len();
    let mut start: usize = 0;
    let mut neg = false;
    if n > 0 {
        let c0 = input.get_char(0);
        if c0 == '-' || c0 == '+' {
            start = 1;
            neg = c0 == '-';
        }
    }
    let ghost body = s.subrange(start as int, n as int);
    proof {
        assert(body =~= body_of(s));
        assert(neg <==> sign_of(s) == -1);
    }

    let mut i: usize = start;
    let mut acc: i64 = 0;  // integer part, saturated at 1001
    let mut f3: i64 = 0;  // fraction part in thousandths (first three digits)
    let mut dcount: usize = 0;  // digits seen
    let mut has_dot = false;
    let mut dotpos: usize = 0;
    let mut bad = false;

    while i < n
        invariant
            s == input@,
            n == s.len(),
            start <= i <= n,
            start <= 1,
            start == 1 ==> n >= 1 && (s[0] == '-' || s[0] == '+'),
            start == 0 ==> !has_sign(s),
            body == s.subrange(start as int, n as int),
            body == body_of(s),
            has_dot ==> start <= dotpos < i && s[dotpos as int] == '.',
            !bad ==> (forall|j: int|
                start <= j < i ==> if has_dot && j == dotpos {
                    s[j] == '.'
                } else {
                    is_digit(s[j])
                }),
            !bad && !has_dot ==> ({
                let pre = s.subrange(start as int, i as int);
                &&& (uint_val(pre) <= 1000 ==> acc == uint_val(pre))
                &&& (uint_val(pre) > 1000 ==> acc == 1001)
                &&& uint_val(pre) >= 0
            }),
            !bad && has_dot ==> ({
                let pre = s.subrange(start as int, dotpos as int);
                &&& (uint_val(pre) <= 1000 ==> acc == uint_val(pre))
                &&& (uint_val(pre) > 1000 ==> acc == 1001)
                &&& uint_val(pre) >= 0
            }),
            0 <= acc <= 1001,
            !bad && has_dot ==> f3 == frac_milli(s.subrange(dotpos as int + 1, i as int)),
            !bad && !has_dot ==> f3 == 0,
            0 <= f3 <= 999,
            dcount <= i,
            !bad ==> dcount == i - start - (if has_dot {
                1int
            } else {
                0int
            }),
            bad ==> !valid_body(body),
        decreases n - i,
    {
        let c = input.get_char(i);
        if c == '.' && !has_dot && !bad {
            has_dot = true;
            dotpos = i;
        } else if c >= '0' && c <= '9' {
            let d = (c as u32) as i64 - 48;
            assert(d == digit_val(c) && 0 <= d <= 9);
            if !bad {
                if !has_dot {
                    proof {
                        lemma_uint_val_push(s, start as int, i as int);
                    }
                    let na = acc * 10 + d;
                    if na > 1001 {
                        acc = 1001;
                    } else {
                        acc = na;
                    }
                } else {
                    let fc = i - dotpos - 1;
                    proof {
                        let oldfrac = s.subrange(dotpos as int + 1, i as int);
                        let newfrac = s.subrange(dotpos as int + 1, i as int + 1);
                        assert(oldfrac.len() == fc);
                        assert(newfrac.len() == fc + 1);
                        assert forall|j: int| 0 <= j < oldfrac.len() implies newfrac[j]
                            == oldfrac[j] by {}
                        assert(newfrac[fc as int] == s[i as int]);
                    }
                    if fc == 0 {
                        f3 = f3 + d * 100;
                    } else if fc == 1 {
                        f3 = f3 + d * 10;
                    } else if fc == 2 {
                        f3 = f3 + d;
                    }
                }
                dcount = dcount + 1;
            }
        } else {
            // a character that is neither a digit nor the first dot:
            // the text cannot be a decimal number
            proof {
                if !bad {
                    let o = i - start;
                    lemma_first_dot(body);
                    let fd = first_dot(body);
                    if has_dot {
                        assert(body[dotpos - start] == '.');
                        assert(fd == dotpos - start);
                        assert(o > fd);
                        if valid_body(body) {
                            let frac = body.subrange(fd + 1, body.len() as int);
                            assert(frac[o - fd - 1] == body[o]);
                            assert(!is_digit(body[o]));
                            assert(false);
                        }
                    } else {
                        if valid_body(body) {
                            if fd < o {
                                assert(is_digit(body[fd]));
                                assert(body[fd] == '.');
                                assert(false);
                            } else if fd == o {
                                assert(body[o] == '.');
                                assert(false);
                            } else {
                                let intpart = body.subrange(0, fd);
                                assert(intpart[o] == body[o]);
                                assert(!is_digit(body[o]));
                                assert(false);
                            }
                        }
                    }
                }
            }
            bad = true;
        }
        i = i + 1;
    }

    if bad {
        return Err(ConfigError::SpeedNotANumber);
    }
    if dcount == 0 {
        proof {
            lemma_first_dot(body);
            let fd = first_dot(body);
            if has_dot {
                assert(fd == dotpos - start);
                assert(body.subrange(0, fd).len() == 0);
                assert(body.subrange(fd + 1, body.len() as int).len() == 0);
            } else {
                assert(body.len() == 0);
            }
        }
        return Err(ConfigError::SpeedNotANumber);
    }

    proof {
        // the text is a decimal number; relate the accumulators to it
        lemma_first_dot(body);
        let fd = first_dot(body);
        if has_dot {
            assert(body[dotpos - start] == '.');
            assert(fd == dotpos - start);
            let intpart = body.subrange(0, fd);
            let frac = body.subrange(fd + 1, body.len() as int);
            assert(intpart =~= s.subrange(start as int, dotpos as int));
            assert(frac =~= s.subrange(dotpos as int + 1, n as int));
            assert(all_digits(intpart));
            assert(all_digits(frac));
            assert(valid_body(body));
            assert(body_milli(body) == uint_val(intpart) * 1000 + frac_milli(frac));
        } else {
            assert(fd == body.len()) by {
                if fd < body.len() {
                    assert(body[fd] == '.');
                    assert(is_digit(body[fd]));
                }
            }
            let intpart = body.subrange(0, fd);
            assert(intpart =~= s.subrange(start as int, n as int));
            assert(intpart =~= body);
            assert(all_digits(intpart));
            assert(valid_body(body));
            assert(body_milli(body) == uint_val(intpart) * 1000 + frac_milli(
                Seq::<char>::empty(),
            ));
            assert(frac_milli(Seq::<char>::empty()) == 0);
        }
    }

    let milli_sat = acc * 1000 + f3;
    if neg {
        return Err(ConfigError::SpeedOutOfRange);
    }
    if acc > 1000 || milli_sat == 0 || milli_sat > SPEED_MILLI_MAX {
        return Err(ConfigError::SpeedOutOfRange);
    }
    Ok(milli_sat)
}

/// Parse the corner margin: a whole number of pixels, optionally
/// signed. Accepted exactly when the text is a whole number in
/// `0 ..= MARGIN_PX_MAX`; a whole number in `MARGIN_PX_MIN ..= -1` is
/// reported as negative, anything else as not a number.
pub fn parse_corner_margin(input: &str) -> (r: Result<i64, ConfigError>)
    ensures
        ({
            let s = input@;
            match r {
                Ok(v) => valid_integer(s) && v == integer_val(s) && 0 <= v <= MARGIN_PX_MAX,
                Err(ConfigError::MarginNegative) => valid_integer(s) && MARGIN_PX_MIN
                    <= integer_val(s) < 0,
                Err(ConfigError::MarginNotANumber) => !valid_integer(s) || integer_val(s)
                    > MARGIN_PX_MAX || integer_val(s) < MARGIN_PX_MIN,
                Err(_) => false,
            }
        }),
{
    let ghost s = input@;
    let n = input.unicode_len();
    let mut start: usize = 0;
    let mut neg = false;
    if n > 0 {
        let c0 = input.get_char(0);
        if c0 == '-' || c0 == '+' {
            start = 1;
            neg = c0 == '-';
        }
    }
    let ghost body = s.subrange(start as int, n as int);
    proof {
        assert(body =~= body_of(s));
        assert(neg <==> sign_of(s) == -1);
    }
    if start >= n {
        return Err(ConfigError::MarginNotANumber);
    }

    let mut i: usize = start;
    let mut acc: i64 = 0;  // saturated at 2_147_483_649

    while i < n
        invariant
            s == input@,
            n == s.len(),
            start <= i <= n,
            body == s.subrange(start as int, n as int),
            body == body_of(s),
            forall|j: int| start <= j < i ==> is_digit(s[j]),
            ({
                let pre = s.subrange(start as int, i as int);
                &&& (uint_val(pre) <= 2_147_483_648 ==> acc == uint_val(pre))
                &&& (uint_val(pre) > 2_147_483_648 ==> acc == 2_147_483_649)
                &&& uint_val(pre) >= 0
            }),
            0 <= acc <= 2_147_483_649,
        decreases n - i,
    {
        let c = input.get_char(i);
        if c >= '0' && c <= '9' {
            let d = (c as u32) as i64 - 48;
            assert(d == digit_val(c) && 0 <= d <= 9);
            proof {
                lemma_uint_val_push(s, start as int, i as int);
            }
            let na = acc * 10 + d;
            if na > 2_147_483_649 {
                acc = 2_147_483_649;
            } else {
                acc = na;
            }
        } else {
            proof {
                assert(!is_digit(body[i - start]));
            }
            return Err(ConfigError::MarginNotANumber);
        }
        i = i + 1;
    }
    proof {
        assert(body =~= s.subrange(start as int, n as int));
        assert(all_digits(body)) by {
            assert forall|j: int| 0 <= j < body.len() implies is_digit(body[j]) by {
                assert(body[j] == s[start + j]);
            }
        }
        assert(valid_integer(s));
        assert(uint_val(body) == uint_val(s.subrange(start as int, n as int)));
    }
    if neg {
        if acc > 2_147_483_648 {
            return Err(ConfigError::MarginNotANumber);
        }
        if acc == 0 {
            return Ok(0);
        }
        return Err(ConfigError::MarginNegative);
    }
    if acc > 2_147_483_647 {
        return Err(ConfigError::MarginNotANumber);
    }
    Ok(acc)
}

/// The logo's drawn extent in milli-pixels: the texture scaled to the
/// fixed draw width, its height in proportion.
pub fn logo_extent(texture_width: i64, texture_height: i64) -> (e: Extent)
    requires
        1 <= texture_width <= TEXTURE_SIDE_MAX,
        1 <= texture_height <= TEXTURE_SIDE_MAX,
    ensures
        e.width == LOGO_DRAW_WIDTH_PX * 1000,
        e.height == (texture_height as int * (LOGO_DRAW_WIDTH_PX as int * 1000)) / (
        texture_width as int),
        0 < e.width,
        0 < e.height,
{
    proof {
        assert(texture_height * 240_000 >= texture_width) by (nonlinear_arith)
            requires
                1 <= texture_height,
                texture_width <= TEXTURE_SIDE_MAX,
        ;
        assert(texture_height * 240_000 <= TEXTURE_SIDE_MAX * 240_000) by (nonlinear_arith)
            requires
                texture_height <= TEXTURE_SIDE_MAX,
        ;
        vstd::arithmetic::div_mod::lemma_div_non_zero(
            texture_height * 240_000,
            texture_width as int,
        );
    }
    Extent { width: 240_000, height: (texture_height * 240_000) / texture_width }
}

/// The initial velocity for a speed multiplier in thousandths: the base
/// speeds scaled by the multiplier, in milli-pixels per second.
pub fn initial_velocity(speed_milli: i64) -> (v: Vec2)
    requires
        0 < speed_milli <= SPEED_MILLI_MAX,
    ensures
        v.x == SPEED_X_PX * speed_milli,
        v.y == SPEED_Y_PX * speed_milli,
        0 < v.x <= crate::sim::VEL_MAX,
        0 < v.y <= crate::sim::VEL_MAX,
{
    Vec2 { x: SPEED_X_PX * speed_milli, y: SPEED_Y_PX * speed_milli }
}

/// The initial position: the logo centered on the screen.
pub fn initial_position(bounds: Bounds, extent: Extent) -> (p: Vec2)
    requires
        0 < extent.width <= bounds.width,
        0 < extent.height <= bounds.height,
    ensures
        p.x == (bounds.width - extent.width) / 2,
        p.y == (bounds.height - extent.height) / 2,
        0 <= p.x && p.x + extent.width <= bounds.width,
        0 <= p.y && p.y + extent.height <= bounds.height,
{
    Vec2 { x: (bounds.width - extent.width) / 2, y: (bounds.height - extent.height) / 2 }
}

} // verus!
