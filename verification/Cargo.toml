[package]
name = "eucalyptus-core"
version = "0.1.0"
edition = "2021"
publish = false

[dependencies]
sha2 = "0.10"
semver = "1"
hecs = "*"
glam = "*"
serde = { version = "1", features = ["derive"] }
ron = "*"
zip = { version = "*", default-features = false, features = ["deflate"] }
anyhow = "1"
app_dirs2 = "2"
libloading = "0.8"
chrono = { version = "0.4", default-features = false, features = ["clock"] }
log = "0.4"
uuid = { version = "1", features = ["v4", "serde"] }
thiserror = "*"
once_cell = "1"
parking_lot = "*"
