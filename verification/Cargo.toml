[package]
name = "rsb"
version = "0.1.0"
edition = "2021"
publish = false

[dependencies]
anyhow = "=1.0.104"
bytes = "=1.12.1"
clap = { version = "=4.6.7", features = ["derive"] }
clap_complete = "=4.6.11"
colored = "=2.2.0"
concolor-clap = "=0.1.0"
env_logger = "=0.11.11"
governor = "=0.10.4"
indicatif = "=0.18.6"
mime_guess = "=2.0.5"
num = "=0.4.3"
num_cpus = "=1.17.0"
reqwest = { version = "=0.13.5", features = ["form", "multipart", "stream"] }
rlimit = "=0.11.0"
serde = { version = "=1.0.229", features = ["derive"] }
serde_json = "=1.0.154"
tokio = { version = "=1.54.1", features = ["full"] }
tokio-util = { version = "=0.7.20", features = ["codec"] }
