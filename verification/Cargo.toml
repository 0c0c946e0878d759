[package]
name = "apiclient_rs"
version = "0.1.0"
edition = "2021"
publish = false

[dependencies]
serde = "=1.0.229"
serde_json = "=1.0.151"
serde_path_to_error = "=0.1.20"
thiserror = "=2.0.21"
reqwest = { version = "=0.13.5", default-features = false, features = ["query"] }
tokio = { version = "=1.53.2", default-features = false, features = ["time"] }
