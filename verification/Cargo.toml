[package]
name = "repo_pack"
version = "0.1.0"
edition = "2021"
publish = false

[dependencies]
anstream = "*"
bytes = "*"
clap = { version = "*", features = ["derive", "env"] }
ctrlc = "*"
dirs = "*"
fs-err = { version = "*", features = ["tokio"] }
futures = "*"
indicatif = "*"
miette = "*"
owo-colors = "*"
reqwest = { version = "*", default-features = false, features = ["json", "rustls-tls"] }
serde = { version = "*", features = ["derive"] }
serde_json = "*"
thiserror = "*"
tokio = { version = "*", features = ["rt", "macros", "signal", "sync"] }
url = "*"
urlencoding = "*"
