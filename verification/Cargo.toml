[package]
name = "rivets"
version = "0.1.0"
edition = "2021"
publish = false

[dependencies]
url = "2"
sha2 = "0.10"
chrono = { version = "0.4", default-features = false, features = ["clock", "std"] }
colored = "2"
clap = { version = "4", features = ["derive"] }
serde = { version = "1", features = ["derive"] }
serde_json = "1"
serde_yaml = "0.9"
thiserror = "2"
tokio = { version = "1", features = ["fs", "rt", "macros"] }
tracing = "0.1"
tracing-subscriber = { version = "0.3", features = ["env-filter"] }
terminal_size = "0.4"
textwrap = "0.16"
async-trait = "0.1"
anyhow = "1"
