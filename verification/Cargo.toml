[package]
name = "eventstore"
version = "0.1.0"
edition = "2021"
publish = false

[dependencies]
uuid = { version = "1", features = ["v4"] }
rand = "0.8"
vec1 = "1"
bytes = "1"
serde = { version = "1", features = ["derive"] }
serde_json = "1"
futures = "0.3"
tonic = "0.12"
prost = "0.13"
http = "1"
reqwest = { version = "0.12", default-features = false, features = ["json"] }
log = "0.4"
byteorder = "1"
