[package]
name = "chatti"
version = "0.1.0"
edition = "2021"
publish = false

[dependencies]
color-eyre = "0.6"
crossterm = "0.28"
dirs = "5"
futures-util = "0.3"
pulldown-cmark = { version = "0.12", default-features = false }
ratatui = "0.29"
reqwest = { version = "0.12", default-features = false, features = ["json", "stream"] }
serde = { version = "1", features = ["derive"] }
serde_json = "1"
syntect = { version = "5", default-features = false, features = ["default-fancy"] }
thiserror = "1"
tokio = { version = "1", features = ["macros", "rt-multi-thread", "sync", "time"] }
toml = "0.8"
tracing = "0.1"
tracing-appender = "0.2"
tracing-subscriber = { version = "0.3", features = ["env-filter"] }
unicode-width = "0.2"
