[package]
name = "rust_echo"
version = "0.1.0"
edition = "2021"
publish = false

[dependencies]
clap = { version = "=4.6.7", features = ["derive"] }
prost = "=0.14.4"
tokio = { version = "=1.54.1", features = ["macros", "rt-multi-thread", "signal", "sync", "time"] }
tokio-stream = "=0.1.19"
tonic = "=0.14.6"
tonic-prost = "0.14"
