[package]
name = "grpc_ebcdic"
version = "0.1.0"
edition = "2021"
publish = false

[dependencies]
prost = "0.14"
prost-types = "0.14"
serde = { version = "1", features = ["derive"] }
serde_json = "1"
tokio = { version = "1", features = ["macros", "rt-multi-thread", "signal", "sync", "time"] }
tokio-stream = "0.1"
tonic = "0.14"
tonic-health = "0.14"
tonic-prost = "0.14"
tonic-reflection = "0.14"
