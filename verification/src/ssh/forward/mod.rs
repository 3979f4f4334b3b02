//! Port forwards.
pub mod address;
pub mod rules;
pub mod socks;
