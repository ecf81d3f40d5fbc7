[package]
name = "tine_projection"
version = "0.1.0"
edition = "2021"
publish = false

[dependencies]
cap-fs-ext = "3"
cap-std = "3"
fs2 = "0.4"
libc = "0.2"
postcard = { version = "1", features = ["alloc"] }
serde = { version = "1", features = ["derive"] }
serde_json = "1"
sha2 = "0.10"
uuid = { version = "1", features = ["v4", "serde"] }
