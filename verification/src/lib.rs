//! A local, encrypted SSH connection manager: the logic behind the terminal UI.
pub mod app;
pub mod bytes;
pub mod cli;
pub mod config;
pub mod crypto;
pub mod error;
pub mod i18n;
pub mod session;
pub mod ssh;
pub mod ssh_config;
pub mod text;
pub mod totp;
pub mod tui;
