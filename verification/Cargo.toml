[package]
name = "sleep_srv"
version = "0.1.0"
edition = "2021"
publish = false

[dependencies]
mio = { version = "1", features = ["os-poll", "net", "os-ext"] }
nix = { version = "*", features = ["time"] }
tokio = { version = "1", features = ["rt-multi-thread", "macros", "net", "io-util", "time"] }
