[package]
name = "hls_relay"
version = "0.1.0"
edition = "2021"
publish = false

[dependencies]
url = "=2.5.8"
urlencoding = "=2.1.3"
reqwest = { version = "*", default-features = false }
tokio = { version = "*", features = ["macros", "rt-multi-thread"] }
warp = { version = "*", features = ["server"] }
tracing = "*"
tracing-subscriber = "*"
colored = "*"
dotenv = "*"
