[package]
name = "xkcdwat"
version = "0.1.0"
edition = "2021"
publish = false

[dependencies]
axum = "0.8"
axum-extra = "*"
color-eyre = "0.6"
http = "1"
pulldown-cmark = { version = "*", default-features = false, features = ["html"] }
regex = "1"
reqwest = "*"
tokio = { version = "1", features = ["macros", "rt-multi-thread", "net"] }
tower-http = { version = "*", features = ["trace"] }
tracing = "0.1"
tracing-subscriber = "0.3"
