[package]
name = "lcr"
version = "0.1.0"
edition = "2021"
publish = false

[dependencies]
anyhow = "1"
clap = { version = "4", features = ["derive"] }
headless_chrome = "0.9"
itertools = "0.10"
once_cell = "1"
serde = { version = "1", features = ["derive"] }
serde_json = "1"
sheets = "*"
thiserror = "1"
time = { version = "0.3", features = ["macros", "parsing"] }
tokio = { version = "1", features = ["macros", "rt-multi-thread"] }
ureq = { version = "2", features = ["json"] }
url = "2"
