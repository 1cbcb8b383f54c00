[package]
name = "icon_gen"
version = "0.1.0"
edition = "2021"
publish = false

[dependencies]
image = { version = "=0.24.9", default-features = false, features = ["png", "ico"] }
rand = "=0.8.8"
clap = { version = "=4.6.7", features = ["derive"] }
anyhow = "=1.0.104"

[dev-dependencies]
serde_json = "=1.0.151"
icns = "=0.3.1"
