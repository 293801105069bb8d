[package]
name = "exact_sni_relay"
version = "0.1.0"
edition = "2021"
publish = false

[dependencies]
arc-swap = "1"
clap = { version = "4", features = ["derive"] }
libc = "0.2"
prometheus = { version = "0.14", default-features = false }
rustls-pemfile = "2"
serde = { version = "1", features = ["derive"] }
serde_json = "1"
thiserror = "2"
tokio = { version = "1", features = ["io-util", "macros", "net", "rt-multi-thread", "signal", "sync", "time"] }
tokio-rustls = "0.26"
