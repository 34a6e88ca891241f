[package]
name = "jj_run"
version = "0.1.0"
edition = "2021"
publish = false

[dependencies]
clap = { version = "4", features = ["derive"] }
futures = "0.3"
itertools = "0.14"
thiserror = "2"
tokio = { version = "1", features = ["process", "rt-multi-thread", "sync"] }
tracing = "0.1"
