[package]
name = "fastpath_core"
version = "0.1.0"
edition = "2021"
publish = false

[dependencies]
bytes = "=1.12.1"
moka = { version = "=0.12.16", features = ["sync"] }
zune-jpeg = { version = "=0.4.21", default-features = false, features = ["std"] }
parking_lot = "=0.12.5"
rayon = "=1.12.0"
serde = { version = "=1.0.229", features = ["derive"] }
serde_json = "=1.0.154"
thiserror = "=1.0.69"
pyo3 = "=0.23.5"
