[package]
name = "xmtp_core"
version = "0.1.0"
edition = "2021"
publish = false

[dependencies]
hex = "0.4"
log = "0.4"
openmls = "0.5"
openmls_traits = "0.2"
prost = "0.12"
protobuf = "3.2.0"
serde = { version = "1", features = ["derive"] }
serde_json = "1"
thiserror = "1"
url = "2"
