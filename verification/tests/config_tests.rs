use raydvd::config::{
    initial_position, initial_velocity, logo_extent, parse_corner_margin, parse_speed_multiplier,
    ConfigError,
};
use raydvd::geom::{Bounds, Extent, Vec2};

#[test]
fn speed_zero_is_rejected() {
    assert_eq!(parse_speed_multiplier("0"), Err(ConfigError::SpeedOutOfRange));
    assert_eq!(parse_speed_multiplier("0.0"), Err(ConfigError::SpeedOutOfRange));
}

#[test]
fn speed_negative_is_rejected() {
    assert_eq!(parse_speed_multiplier("-1"), Err(ConfigError::SpeedOutOfRange));
    assert_eq!(parse_speed_multiplier("-0.5"), Err(ConfigError::SpeedOutOfRange));
}

#[test]
fn speed_two_point_five_is_accepted() {
    assert_eq!(parse_speed_multiplier("2.5"), Ok(2_500));
}

#[test]
fn speed_plain_values() {
    assert_eq!(parse_speed_multiplier("1"), Ok(1_000));
    assert_eq!(parse_speed_multiplier("+1.25"), Ok(1_250));
    assert_eq!(parse_speed_multiplier("0.125"), Ok(125));
    assert_eq!(parse_speed_multiplier(".5"), Ok(500));
    assert_eq!(parse_speed_multiplier("3."), Ok(3_000));
    assert_eq!(parse_speed_multiplier("1000"), Ok(1_000_000));
}

#[test]
fn speed_malformed_is_not_a_number() {
    assert_eq!(parse_speed_multiplier(""), Err(ConfigError::SpeedNotANumber));
    assert_eq!(parse_speed_multiplier("fast"), Err(ConfigError::SpeedNotANumber));
    assert_eq!(parse_speed_multiplier("1.2.3"), Err(ConfigError::SpeedNotANumber));
    assert_eq!(parse_speed_multiplier("-"), Err(ConfigError::SpeedNotANumber));
    assert_eq!(parse_speed_multiplier("."), Err(ConfigError::SpeedNotANumber));
    assert_eq!(parse_speed_multiplier("1e3"), Err(ConfigError::SpeedNotANumber));
}

#[test]
fn speed_too_large_is_out_of_range() {
    assert_eq!(parse_speed_multiplier("1000.001"), Err(ConfigError::SpeedOutOfRange));
    assert_eq!(parse_speed_multiplier("99999999999999"), Err(ConfigError::SpeedOutOfRange));
}

#[test]
fn speed_below_resolution_is_rejected() {
    // less than a thousandth truncates to zero
    assert_eq!(parse_speed_multiplier("0.0004"), Err(ConfigError::SpeedOutOfRange));
}

#[test]
fn margin_accepts_non_negative() {
    assert_eq!(parse_corner_margin("0"), Ok(0));
    assert_eq!(parse_corner_margin("5"), Ok(5));
    assert_eq!(parse_corner_margin("+12"), Ok(12));
    assert_eq!(parse_corner_margin("2147483647"), Ok(2_147_483_647));
    assert_eq!(parse_corner_margin("-0"), Ok(0));
}

#[test]
fn margin_rejects_negative() {
    assert_eq!(parse_corner_margin("-1"), Err(ConfigError::MarginNegative));
    assert_eq!(parse_corner_margin("-2147483648"), Err(ConfigError::MarginNegative));
}

#[test]
fn margin_rejects_malformed_and_overflow() {
    assert_eq!(parse_corner_margin(""), Err(ConfigError::MarginNotANumber));
    assert_eq!(parse_corner_margin("5.0"), Err(ConfigError::MarginNotANumber));
    assert_eq!(parse_corner_margin("abc"), Err(ConfigError::MarginNotANumber));
    assert_eq!(parse_corner_margin("2147483648"), Err(ConfigError::MarginNotANumber));
    assert_eq!(parse_corner_margin("-2147483649"), Err(ConfigError::MarginNotANumber));
}

#[test]
fn error_messages() {
    assert_eq!(ConfigError::SpeedNotANumber.message(), "not a valid float");
    assert_eq!(
        ConfigError::SpeedOutOfRange.message(),
        "speed must be a finite value greater than 0"
    );
    assert_eq!(ConfigError::MarginNotANumber.message(), "not a valid integer");
    assert_eq!(ConfigError::MarginNegative.message(), "corner margin must be an integer >= 0");
}

#[test]
fn logo_extent_scales_to_draw_width() {
    // a 512x256 texture drawn 240 px wide is 120 px tall
    assert_eq!(logo_extent(512, 256), Extent { width: 240_000, height: 120_000 });
    // a square texture keeps its aspect
    assert_eq!(logo_extent(300, 300), Extent { width: 240_000, height: 240_000 });
}

#[test]
fn initial_state_is_centered_and_scaled() {
    let v = initial_velocity(2_500);
    assert_eq!(v, Vec2 { x: 600_000, y: 450_000 });
    let p = initial_position(
        Bounds { width: 800_000, height: 600_000 },
        Extent { width: 100_000, height: 100_000 },
    );
    assert_eq!(p, Vec2 { x: 350_000, y: 250_000 });
}
