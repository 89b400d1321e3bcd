//! A deliberately non-conformant NTP server core: a bit-exact wire codec for
//! NTP packets, fixed-point timestamp arithmetic, and pluggable response
//! strategies that hand out intentionally skewed time.

mod clock;
pub mod ntp;
pub mod response_strategy;
pub mod server;
