[package]
name = "gitseer"
version = "0.1.0"
edition = "2021"
publish = false

[dependencies]
git2 = { version = "=0.21.0", default-features = false }
serde = { version = "=1.0.229", features = ["derive"] }
serde_json = "=1.0.154"
thiserror = "=2.0.21"
notify = "=8.2.1"
tokio = { version = "=1.54.1", features = ["rt", "rt-multi-thread", "macros", "io-std", "io-util", "sync", "time"] }
clap = { version = "=4.6.7", features = ["derive"] }
anyhow = "=1.0.104"

[dev-dependencies]
tempfile = "=3.27.0"
