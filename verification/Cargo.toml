[package]
name = "monofs"
version = "0.1.0"
edition = "2021"
publish = false

[dependencies]
sha2 = "0.10"
anyhow = "1"
thiserror = "2"
tracing = "0.1"
tokio = { version = "1", features = ["fs", "net", "process", "time"] }
nix = { version = "0.29", features = ["signal", "process"] }
sqlx = { version = "0.8", default-features = false, features = ["sqlite", "runtime-tokio", "migrate"] }
