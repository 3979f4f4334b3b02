[package]
name = "ssh_control"
version = "0.1.0"
edition = "2021"
publish = false

[dependencies]
aes-gcm = "=0.10.3"
argon2 = "=0.5.3"
base64 = "=0.22.1"
clap = { version = "=4.6.7", features = ["derive"] }
crossterm = "=0.29.0"
directories = "=6.0.0"
getrandom = "=0.3.4"
hkdf = "=0.12.4"
keyring = "4"
libc = "=0.2.191"
ratatui = { version = "=0.30.2", default-features = false, features = ["crossterm", "layout-cache"] }
russh = { version = "=0.65.0", default-features = false, features = ["ring"] }
rustix = { version = "=1.1.6", features = ["fs", "termios", "stdio"] }
serde = { version = "=1.0.229", features = ["derive"] }
serde_json = "=1.0.154"
sha2 = "=0.10.9"
thiserror = "=2.0.21"
tokio = { version = "=1.54.1", features = ["full"] }
totp-rs = { version = "=5.7.2", features = ["otpauth", "gen_secret"] }
uuid = { version = "=1.29.0", features = ["v4", "serde"] }
zeroize = { version = "=1.9.1", features = ["derive"] }

