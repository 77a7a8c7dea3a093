[package]
name = "evm_abci"
version = "0.1.0"
edition = "2021"
publish = false

[dependencies]
revm = "=43.0.3"
tokio = { version = "=1.53.2", features = ["rt-multi-thread", "macros", "sync", "time", "net", "io-util"] }
warp = { version = "=0.4.3", default-features = false, features = ["server"] }
serde = { version = "=1.0.229", features = ["derive"] }
serde_json = "=1.0.151"
reqwest = { version = "=0.13.5", default-features = false }
