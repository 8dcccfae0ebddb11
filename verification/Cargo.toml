[package]
name = "budget"
version = "0.1.0"
edition = "2021"
publish = false

[dependencies]
scraper = "*"
sha2 = "*"
time = { version = "*", features = ["formatting"] }
thiserror = "*"
tokio = { version = "1", features = ["rt", "rt-multi-thread", "macros", "sync", "net", "signal"] }
toml = "*"
serde = { version = "1", features = ["derive"] }
turso = "*"
ulid = "*"
rand = "*"
