[package]
name = "apollo"
version = "0.1.0"
edition = "2021"
publish = false

[dependencies]
sqlparser = { version = "*", default-features = false, features = ["std"] }
tokio = { version = "1", default-features = false, features = ["sync"] }
parking_lot = "0.12"
serde = { version = "1", features = ["derive"] }
thiserror = "1"
either = "1"
pyo3 = "*"
