[package]
name = "nine_saves"
version = "0.1.0"
edition = "2021"
publish = false

[dependencies]
anyhow = "1"
base64 = "0.22"
directories = "5"
iced = { version = "0.12", default-features = false }
image = { version = "0.24", default-features = false, features = ["png"] }
libaes = "0.7"
regex = "1"
serde = { version = "1", features = ["derive"] }
sonic-rs = "0.3"
