[package]
name = "ducko"
version = "0.1.0"
edition = "2021"
publish = false

[dependencies]
anyhow = "1"
axum = { version = "0.8", features = ["ws"] }
chrono = "0.4"
clap = { version = "4", features = ["derive"] }
env_logger = "0.11"
fs_extra = "1"
log = "0.4"
notify = "8"
pulldown-cmark = "0.13"
rustyline = "15"
serde = { version = "1", features = ["derive"] }
serde_yaml = "0.9"
tera = "1"
thiserror = "2"
tokio = { version = "1", features = ["full"] }
tower-http = { version = "0.6", features = ["fs"] }
webbrowser = "1"
