[package]
name = "gaimode"
version = "0.1.0"
edition = "2021"
publish = false

[dependencies]
anyhow = "*"
clap = { version = "*", features = ["derive"] }
config = { version = "*", default-features = false, features = ["toml"] }
dbus = "*"
glob = "*"
libc = "*"
nix = { version = "*", features = ["process", "signal", "fs"] }
serde = { version = "*", features = ["derive"] }
tokio = { version = "*", features = ["rt-multi-thread", "net", "signal", "sync", "time", "macros", "io-util"] }
tracing = "*"
tracing-subscriber = "*"
