//! Decoding the telemetry payload a sensor sends in one value notification.

use vstd::prelude::*;

verus! {

/// One decoded set of sensor readings.
#[derive(Clone, Copy, PartialEq, Eq, Structural, Debug)]
pub struct Reading {
    /// temperature in hundredths of a degree Celsius
    pub temperature_centi: i16,
    /// relative humidity in percent
    pub humidity: u8,
    /// battery voltage in millivolts
    pub battery_voltage: u16,
    /// battery charge estimate in percent, inferred from the voltage
    pub battery_percent: u16,
}

/// The signed 16-bit value stored little-endian in the bytes `lo`, `hi`.
pub open spec fn i16_le_spec(lo: u8, hi: u8) -> int {
    if hi >= 128 {
        (hi as int) * 256 + lo - 65536
    } else {
        (hi as int) * 256 + lo
    }
}

/// The unsigned 16-bit value stored little-endian in the bytes `lo`, `hi`.
pub open spec fn u16_le_spec(lo: u8, hi: u8) -> int {
    (hi as int) * 256 + lo
}

/// Battery percent inferred from millivolts: 2100 mV or less counts as
/// empty, and every full 10 mV above that adds one percent.
pub open spec fn battery_percent_spec(mv: int) -> int {
    if mv >= 2100 {
        (mv - 2100) / 10
    } else {
        0
    }
}

/// What a telemetry payload means. A valid payload is exactly 5 bytes:
/// temperature in hundredths of a degree as a little-endian signed 16-bit
/// value, then the humidity percent byte, then the battery voltage in
/// millivolts as a little-endian unsigned 16-bit value. Anything else is
/// invalid and decodes to nothing.
pub open spec fn decode_spec(b: Seq<u8>) -> Option<Reading> {
    if b.len() == 5 {
        Some(
            Reading {
                temperature_centi: i16_le_spec(b[0], b[1]) as i16,
                humidity: b[2],
                battery_voltage: u16_le_spec(b[3], b[4]) as u16,
                battery_percent: battery_percent_spec(u16_le_spec(b[3], b[4])) as u16,
            },
        )
    } else {
        None
    }
}

/// Decode one telemetry payload, or report it invalid.
pub fn decode_reading(payload: &Vec<u8>) -> (r: Option<Reading>)
    ensures
        r == decode_spec(payload@),
{
    if payload.len() != 5 {
        return None;
    }
    let lo = payload[0];
    let hi = payload[1];
    let raw: u32 = (hi as u32) * 256 + (lo as u32);
    let temperature_centi: i16 = if raw >= 32768 {
        ((raw as i32) - 65536) as i16
    } else {
        (raw as i32) as i16
    };
    proof {
        assert(temperature_centi as int == i16_le_spec(lo, hi));
    }
    let humidity = payload[2];
    let mv_lo = payload[3];
    let mv_hi = payload[4];
    let mv: u32 = (mv_hi as u32) * 256 + (mv_lo as u32);
    let battery_voltage: u16 = mv as u16;
    let battery_percent: u16 = if mv >= 2100 {
        ((mv - 2100) / 10) as u16
    } else {
        0
    };
    Some(
        Reading {
            temperature_centi,
            humidity,
            battery_voltage,
            battery_percent,
        },
    )
}

/// Decoding is a pure function of the payload bytes alone: the same bytes
/// always yield the same reading, or fail the same way, on every call.
pub proof fn lemma_decode_deterministic(b1: Seq<u8>, b2: Seq<u8>)
    requires
        b1 == b2,
    ensures
        decode_spec(b1) == decode_spec(b2),
{
}

} // verus!
