[package]
name = "networkinator"
version = "0.1.0"
edition = "2021"
publish = false

[dependencies]
postcard = { version = "1", features = ["use-std"] }
serde = { version = "1", features = ["derive"] }
uuid = "1"
bevy = { version = "0.17", default-features = false, features = ["bevy_log"] }
erased-serde = "0.4"
futures-util = { version = "0.3", features = ["sink"] }
gloo-net = { version = "0.6", default-features = false, features = ["websocket"] }
send_wrapper = "0.6"
tokio = { version = "1", features = ["net", "io-util", "sync"] }
wasm-bindgen-futures = "0.4"
