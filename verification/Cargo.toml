[package]
name = "dug"
version = "0.1.0"
edition = "2021"
publish = false

[dependencies]
anyhow = "*"
clap = { version = "*", features = ["derive"] }
futures-util = "*"
tabled = "*"
tokio = { version = "*", features = ["macros", "process", "rt-multi-thread", "time"] }
trust-dns-resolver = "*"

[dev-dependencies]
serde_json = "*"
