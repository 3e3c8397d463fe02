//! Non-blocking numeric codec over byte streams: fixed-width signed and
//! unsigned integers (1 to 8 bytes) in big- or little-endian order, moved
//! across a stream that may deliver or accept only part of a value at a time.

pub mod endian;
pub mod ops;
pub mod transfer;
