[package]
name = "tui_chat"
version = "0.1.0"
edition = "2021"
publish = false

[dependencies]
textwrap = "0.16"
tui = "0.19"
crossterm = "0.25"
tokio = { version = "1", features = ["full"] }
tokio-util = { version = "0.7", features = ["codec"] }
futures = "0.3"
chrono = "0.4"
inquire = "0.7"
serde = { version = "1", features = ["derive"] }
serde_json = "1"
sqlx = { version = "0.8", default-features = false, features = ["sqlite", "runtime-tokio"] }
once_cell = "1"
anyhow = "1"
