[package]
name = "syzygy"
version = "0.1.0"
edition = "2021"
publish = false

[dependencies]
regex = "=1.13.1"
uuid = { version = "=1.29.0", features = ["v4"] }
chrono = "=0.4.45"
serde = { version = "=1.0.229", features = ["derive"] }
serde_json = "=1.0.154"
base64 = "=0.22.1"
log = "=0.4.35"
once_cell = "=1.21.4"
lazy_static = "=1.5.1"
thiserror = "=1.0.69"
parking_lot = "=0.12.5"
tokio = { version = "=1.54.1", features = ["fs", "sync", "rt", "macros"] }
typst = "0.13"
typst-pdf = "0.13"
reqwest = { version = "0.12", default-features = false, features = ["json", "stream"] }
notify = "6"
directories = "5"
futures = "0.3"
