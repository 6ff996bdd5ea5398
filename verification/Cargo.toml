[package]
name = "lazytail"
version = "0.1.0"
edition = "2021"
publish = false

[dependencies]
serde = { version = "=1.0.229", features = ["derive"] }
serde_json = "=1.0.154"
dirs = "=7.0.0"
regex = "=1.13.1"
unicode-width = "=0.2.0"
memchr = "=2.8.3"
ratatui = { version = "=0.29.0", default-features = false }
ansi-to-tui = "=7.0.0"
strsim = "=0.11.1"
libc = "=0.2.191"
memmap2 = "=0.9.12"
notify = "=8.2.1"
signal-hook = "=0.4.6"
self_update = { version = "=0.44.0", default-features = false, features = ["reqwest", "rustls", "archive-tar", "compression-flate2"] }
