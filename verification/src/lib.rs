//! Core logic of a bridge between wireless environmental sensors and a
//! message-based device registry: deriving registry node identities from
//! hardware addresses, decoding and formatting telemetry, managing the
//! connect/retry lifecycle of a fleet of sensors, and dispatching the
//! notifications of a transport session to the right handler.
//!
//! The transport session, the registry client and all other I/O live outside
//! this crate; they feed plain values in and carry the returned actions out.

pub mod events;
pub mod identity;
pub mod manager;
pub mod readings;
pub mod textfmt;
