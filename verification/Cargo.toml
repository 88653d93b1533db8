[package]
name = "slater"
version = "0.1.0"
edition = "2021"
publish = false

[dependencies]
pulldown-cmark = "*"
minijinja = "*"
serde = { version = "*", features = ["derive"] }
toml = "*"
clap = { version = "*", features = ["derive"] }
tokio = { version = "*", features = ["full"] }
axum = "*"
tower-http = { version = "*", features = ["fs"] }
