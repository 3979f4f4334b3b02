//! SSH: what is decided about a connection, as opposed to what carries it.
pub mod auth;
pub mod channel;
pub mod client;
pub mod forward;
pub mod pty_bridge;
pub mod script_runner;
pub mod session;
pub mod sftp;
pub mod sysinfo;
pub mod transfer;

pub use client::HostKeyOutcome;
pub use session::{Endpoint, Target};
