[package]
name = "frand_property"
version = "0.1.0"
edition = "2021"
publish = false

[dependencies]
anyhow = "1"
heck = "0.5"
proc-macro2 = "1"
quote = "1"
slint = { version = "1", default-features = false, features = ["std", "compat-1-2"] }
syn = { version = "2", features = ["full", "visit"] }
tokio = { version = "1", features = ["macros", "rt", "rt-multi-thread", "sync", "time"] }
tokio-stream = { version = "0.1", features = ["sync"] }
walkdir = "2"

[dev-dependencies]
arraystring = "0.3"
