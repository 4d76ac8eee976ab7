[package]
name = "pinned_futures"
version = "0.1.0"
edition = "2021"
publish = false

[dependencies]
tokio = { version = "=1.54.1", features = ["rt-multi-thread", "macros", "sync", "time"] }
pin-project = "=1.1.13"
arrow = { version = "*", default-features = false }
rand = "*"
