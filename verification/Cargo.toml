[package]
name = "packet_worker"
version = "0.1.0"
edition = "2021"
publish = false

[dependencies]
crossbeam-channel = "=0.5.17"
tracing = "=0.1.44"
tokio = { version = "=1.54.1", default-features = false, features = ["rt"] }
tendermint = "0.40"
