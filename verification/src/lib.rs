//! Core of a host/device protocol bridge: a frame detector for a
//! length-prefixed binary sensor protocol, a relay state machine that
//! accumulates device-channel bytes and forwards complete frames, a
//! hex dump formatter for observability, and a serial-number formatter.
//!
//! The relay owns a bounded accumulation buffer (a `heapless::Vec`);
//! all decisions taken on the buffer's contents are verified, while the
//! transports that deliver the events live outside this crate.

pub mod detector;
pub mod hbuf;
pub mod pretty;
pub mod relay;
pub mod serial;
