[package]
name = "aspargus"
version = "0.1.0"
edition = "2021"
publish = false

[dependencies]
base64 = "0.22"
chksum-hash-md5 = "*"
chrono = "0.4"
clap = { version = "4", features = ["cargo"] }
directories = "*"
glob = "0.3"
image = "*"
log = "0.4"
ollama-rs = "*"
rayon = "1"
serde = { version = "1", features = ["derive"] }
serde_json = "1"
simple_logger = "*"
tokio = { version = "1", features = ["macros", "rt-multi-thread"] }
