use mijia_bridge::readings::{decode_reading, Reading};

#[test]
fn decode_valid_payload() {
    let payload = vec![1, 2, 3, 4, 10];
    assert_eq!(
        decode_reading(&payload),
        Some(Reading {
            temperature_centi: 513,
            humidity: 3,
            battery_voltage: 2564,
            battery_percent: 46,
        })
    );
}

#[test]
fn decode_negative_temperature() {
    let payload = vec![255, 255, 50, 0, 0];
    assert_eq!(
        decode_reading(&payload),
        Some(Reading {
            temperature_centi: -1,
            humidity: 50,
            battery_voltage: 0,
            battery_percent: 0,
        })
    );
}

#[test]
fn low_battery_voltage_counts_as_empty() {
    let payload = vec![0, 0, 0, 0x34, 0x08];
    let r = decode_reading(&payload).unwrap();
    assert_eq!(r.battery_voltage, 0x0834);
    assert_eq!(r.battery_percent, 0);
}

#[test]
fn decode_empty_payload_is_invalid() {
    assert_eq!(decode_reading(&vec![]), None);
}

#[test]
fn decode_short_payload_is_invalid() {
    assert_eq!(decode_reading(&vec![1, 2, 3, 4]), None);
}

#[test]
fn decode_long_payload_is_invalid() {
    assert_eq!(decode_reading(&vec![1, 2, 3, 4, 5, 6]), None);
}

#[test]
fn decoding_twice_gives_the_same_outcome() {
    let valid = vec![1, 2, 3, 4, 10];
    assert_eq!(decode_reading(&valid), decode_reading(&valid));
    let invalid = vec![9, 9];
    assert_eq!(decode_reading(&invalid), None);
    assert_eq!(decode_reading(&invalid), None);
}
