[package]
name = "websocket"
version = "0.1.0"
edition = "2021"
publish = false

[dependencies]
ascii = "1.0"
base64 = "0.13"
sha1 = "=0.6.0"
thiserror = "1.0"
