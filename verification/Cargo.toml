[package]
name = "lightning"
version = "0.1.0"
edition = "2021"
publish = false

[dependencies]
byteorder = "=1.5.0"
pathfinding = "=4.16.0"
regex = "=1.13.1"
serde = { version = "=1.0.229", features = ["derive"] }
serde_json = "=1.0.154"
dirs = "=7.0.0"
thousands = "=0.2.0"
rustc-hash = "=2.1.3"
imbl = "*"
archery = "*"
encoding_rs = "*"
bincode = "1"
reqwest = { version = "*", default-features = false, features = ["blocking", "json", "rustls-tls"] }
