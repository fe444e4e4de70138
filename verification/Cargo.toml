[package]
name = "cdn_mirror"
version = "0.1.0"
edition = "2021"
publish = false

[dependencies]
globset = "*"
clap = { version = "*", features = ["derive"] }
futures = "*"
indicatif = "*"
reqwest = { version = "*", default-features = false, features = ["json", "stream"] }
serde = { version = "*", features = ["derive"] }
tokio = { version = "*", features = ["rt-multi-thread", "macros", "sync"] }
