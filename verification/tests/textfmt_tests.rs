use mijia_bridge::textfmt::{format_integer, format_temperature};

#[test]
fn temperature_two_decimals() {
    assert_eq!(format_temperature(513), "5.13");
    assert_eq!(format_temperature(2185), "21.85");
}

#[test]
fn temperature_zero() {
    assert_eq!(format_temperature(0), "0.00");
}

#[test]
fn temperature_small_negative_keeps_leading_zero() {
    assert_eq!(format_temperature(-5), "-0.05");
}

#[test]
fn temperature_extremes() {
    assert_eq!(format_temperature(32767), "327.67");
    assert_eq!(format_temperature(-32768), "-327.68");
}

#[test]
fn temperature_round_tenths() {
    assert_eq!(format_temperature(2100), "21.00");
    assert_eq!(format_temperature(-2150), "-21.50");
}

#[test]
fn integers_render_in_decimal() {
    assert_eq!(format_integer(0), "0");
    assert_eq!(format_integer(7), "7");
    assert_eq!(format_integer(46), "46");
    assert_eq!(format_integer(100), "100");
    assert_eq!(format_integer(4294967295), "4294967295");
}
