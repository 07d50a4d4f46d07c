[package]
name = "cool_stylesheet"
version = "0.1.0"
edition = "2021"
publish = false

[dependencies]
anyhow = "1"
async-stream = "0.3"
axum = "0.6"
camino = "1"
futures = "0.3"
hyper = { version = "0.14", features = ["client", "http1", "tcp"] }
lol_html = "1"
mime_guess = "2"
notify = "6"
pathdiff = "0.2"
serde_json = "1"
tokio = { version = "1", features = ["full"] }
url = "2"
