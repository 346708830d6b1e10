[package]
name = "breadknife"
version = "0.1.0"
edition = "2021"
publish = false

[dependencies]
zbus = "5"
thiserror = "2"
serde = { version = "1", features = ["derive"] }
serde_json = "1"
tokio = { version = "1", features = ["rt", "net", "io-util"] }
async-channel = "2"
clap = { version = "4", features = ["derive"] }
gtk4 = "*"
gtk4-layer-shell = "*"
