[package]
name = "blob_stream"
version = "0.1.0"
edition = "2021"
publish = false

[dependencies]
bit-array-rs = "*"
flood-rs = "*"
