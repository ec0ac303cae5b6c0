[package]
name = "asanadw"
version = "0.1.0"
edition = "2021"
publish = false

[dependencies]
anyhow = "=1.0.104"
asanaclient = "=0.1.1"
chrono = "=0.4.45"
clap = { version = "=4.6.7", features = ["derive"] }
dirs = "=7.0.0"
env_logger = "=0.11.11"
log = "=0.4.34"
mixtape-core = { version = "=0.5.0", features = ["anthropic", "bedrock"] }
rusqlite = { version = "=0.40.2", features = ["bundled"] }
rusqlite_migration = "=2.6.0"
serde = { version = "=1.0.229", features = ["derive"] }
serde_json = "=1.0.154"
thiserror = "=2.0.21"
tokio = { version = "=1.54.1", features = ["rt-multi-thread", "macros", "time"] }
tokio-rusqlite = "=0.8.0"
url = "=2.5.8"
