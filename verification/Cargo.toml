[package]
name = "qubit_codec_text"
version = "0.7.0"
edition = "2021"
publish = false

[dependencies]
thiserror = "2"
