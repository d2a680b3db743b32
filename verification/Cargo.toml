[package]
name = "do-harness"
version = "0.1.0"
edition = "2021"
publish = false

[dependencies]
globset = "0.4"
sha2 = "0.10"
hex = "0.4"
serde = { version = "1", features = ["derive"] }
serde_json = "1"
toml = "0.8"
anyhow = "1"
thiserror = "1"
clap = { version = "4", features = ["derive"] }
clap_complete = "4"
tokio = { version = "1", features = ["rt", "macros", "fs", "time"] }
libsql = { version = "0.9", default-features = false, features = ["core"] }

[dev-dependencies]
tempfile = "3"
