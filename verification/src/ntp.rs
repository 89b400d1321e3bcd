//! The NTP wire format: packet model, fixed-point time values, and the codec.

pub mod calendar;
pub mod parser;
pub mod types;
