[package]
name = "ntucool"
version = "0.1.0"
edition = "2021"
publish = false

[dependencies]
scraper = "*"
ego-tree = "*"
urlencoding = "2"
rand = "0.8"
regex = "1"
html-escape = "0.2"
fuzzy-matcher = "0.3"
chrono = { version = "0.4", features = ["serde"] }
serde = { version = "1", features = ["derive"] }
serde_json = "1"
clap = { version = "4", features = ["derive"] }
reqwest = { version = "0.12", features = ["json", "cookies", "multipart", "stream"] }
tokio = { version = "1", features = ["full"] }
futures = "0.3"
comfy-table = "7"
dialoguer = "0.11"
rpassword = "7"
indicatif = "0.17"
crossterm = "0.28"
ratatui = "0.29"
rmcp = { version = "*", features = ["server", "macros", "transport-io"] }
axum = "0.8"
schemars = "*"
tracing = "0.1"
tracing-subscriber = { version = "0.3", features = ["env-filter"] }
tokio-util = { version = "0.7", features = ["io"] }
dirs = "*"
open = "5"
pdf-extract = "*"
textwrap = "0.16"
