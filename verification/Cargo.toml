[package]
name = "git-serve"
version = "0.1.0"
edition = "2021"
publish = false

[dependencies]
axum = "0.8"
gix = "=0.81.0"
kstring = "=2.0.2"
mime_guess = "2"
nix = { version = "=0.31.3", features = ["signal", "process"] }
serde = { version = "1", features = ["derive"] }
serde_json = "1"
thiserror = "2"
tokio = { version = "1", features = ["full"] }
tracing = "0.1"
tracing-subscriber = { version = "0.3", features = ["env-filter"] }

[dev-dependencies]
tempfile = "3"
