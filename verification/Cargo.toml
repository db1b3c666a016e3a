[package]
name = "deltalake_gcp"
version = "0.1.0"
edition = "2021"
publish = false

[dependencies]
object_store = { version = "*", features = ["gcp"] }
url = "*"
