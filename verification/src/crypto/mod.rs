//! The vault's cryptography: the cipher, and the key derivation in front of it.
pub mod cipher;
pub mod kdf;
pub mod wiped;
