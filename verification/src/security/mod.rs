//! Protection against floods and malformed input.
pub mod rate_limiter;
pub mod sanitizer;

pub use rate_limiter::{ConnectionRateLimiter, PacketRateLimiter};
pub use sanitizer::Sanitizer;
