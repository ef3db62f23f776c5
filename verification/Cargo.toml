[package]
name = "quench"
version = "0.1.0"
edition = "2021"
publish = false

[dependencies]
anyhow = "*"
either = "*"
futures = "*"
lspower = "*"
serde = { version = "*", features = ["derive"] }
serde_json = "*"
slurp = "*"
structopt = "*"
tokio = { version = "*", features = ["full"] }
url = "*"
