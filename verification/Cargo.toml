[package]
name = "origami"
version = "0.1.0"
edition = "2021"
publish = false

[dependencies]
anyhow = "*"
async-codec = "*"
async-process = "*"
async-std = "*"
binserde = "*"
bytes = "*"
clap = { version = "*", features = ["cargo"] }
futures = "*"
lazy_static = "*"
linked-hash-map = { version = "*", features = ["serde_impl"] }
log = "*"
pin-project-lite = "*"
proc-exit = "*"
reqwest = { version = "*", default-features = false, features = ["stream"] }
serde = { version = "*", features = ["derive"] }
serde-xml-rs = "*"
sha2 = "*"
simplelog = "*"
tempfile = "*"
thiserror = "*"
tokio = { version = "*", features = ["full"] }
toml = "*"
type-map = "*"
url = { version = "*", features = ["serde"] }
