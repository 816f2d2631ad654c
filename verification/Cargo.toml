[package]
name = "signaling"
version = "0.1.0"
edition = "2021"
publish = false

[dependencies]
futures-util = { version = "0.3", features = ["sink"] }
gloo-timers = { version = "0.3", features = ["futures"] }
http = "0.2"
log = "0.4"
prost = "=0.13.5"
rand = "=0.8.8"
thiserror = "2"
tokio = { version = "1", features = ["macros", "net", "rt", "time"] }
tokio-tungstenite = { version = "0.18", features = ["rustls-tls-webpki-roots"] }
tokio-tungstenite-wasm = "0.6"
url = "=2.5.8"
urlencoding = "=2.1.3"
wasm-bindgen-futures = "0.4"
