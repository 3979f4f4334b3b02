//! SFTP, version 3.
pub mod client;
pub mod wire;

pub use client::{FileHandle, RemoteEntry, SftpClient};
pub use wire::FileKind;
