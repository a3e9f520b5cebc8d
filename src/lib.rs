//! Short-code allocation and per-client rate limiting for a link-shortening service.
pub mod alphabet;
pub mod config;
pub mod error;
pub mod models;
pub mod qr_code;
pub mod rate_limiter;
pub mod shorten;
