[package]
name = "marketpipe"
version = "0.1.0"
edition = "2021"
publish = false

[dependencies]
serde_json = "*"
reqwest = { version = "*", default-features = false, features = ["blocking"] }
rand = "*"
serde = { version = "*", features = ["derive"] }
actix-web = "*"
actix-files = "*"
chrono = "*"
clap = { version = "*", features = ["derive"] }
redis = { version = "*", features = ["tokio-comp"] }
rusqlite = { version = "*", features = ["bundled"] }
thiserror = "*"
tokio = { version = "*", features = ["macros", "rt-multi-thread", "time", "sync"] }
tracing = "*"
tracing-subscriber = "*"
