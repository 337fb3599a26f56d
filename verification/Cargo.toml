[package]
name = "geopmdrs"
version = "0.1.0"
edition = "2021"
publish = false

[dependencies]
prost = "0.12"
tokio = { version = "1", features = ["macros", "rt-multi-thread", "net", "sync"] }
tokio-stream = { version = "0.1", features = ["net"] }
tonic = "0.10"
tower = { version = "0.4", features = ["util"] }
