[package]
name = "tool_tool"
version = "0.1.0"
edition = "2021"
publish = false

[dependencies]
anyhow = "*"
atomicwrites = "*"
dunce = "*"
flate2 = "*"
http_req = { version = "*", default-features = false }
serde = { version = "*", features = ["derive"] }
serde_yaml = "*"
tar = "*"
zip = { version = "*", default-features = false, features = ["deflate"] }
