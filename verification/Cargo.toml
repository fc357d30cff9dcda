[package]
name = "tenere"
version = "0.1.0"
edition = "2021"
publish = false

[dependencies]
serde_json = "1"
regex = "1"
serde = { version = "1", features = ["derive"] }
tokio = { version = "1", features = ["rt-multi-thread", "macros", "sync", "time", "process", "fs", "io-util"] }
reqwest = { version = "0.12", default-features = false, features = ["json", "stream", "rustls-tls"] }
futures = "0.3"
bytes = "1"
async-trait = "0.1"
ratatui = "0.29"
crossterm = { version = "0.28", features = ["event-stream"] }
tui-textarea = "0.7"
ansi-to-tui = "7"
bat = { version = "0.24", default-features = false, features = ["regex-fancy"] }
arboard = { version = "3", default-features = false }
clap = { version = "4", features = ["cargo"] }
dirs = "5"
toml = "0.8"
unicode-width = "0.2"
