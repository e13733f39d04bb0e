[package]
name = "tradeos"
version = "0.1.0"
edition = "2021"
publish = false

[dependencies]
rand = "0.9"
serde = { version = "1", features = ["derive"] }
serde_json = "1"
thiserror = "2"
rkyv = "0.8"
bitflags = { version = "2", features = ["serde"] }
smallvec = { version = "1", features = ["serde"] }
uuid = { version = "1", features = ["serde"] }
crossbeam-channel = "0.5"
tokio = { version = "1", features = ["rt", "rt-multi-thread", "net", "sync", "time", "macros", "signal"] }
zeromq = "0.4"
axum = "0.8"
async-trait = "0.1"
tracing = "0.1"
tracing-subscriber = "0.3"
