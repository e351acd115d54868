[package]
name = "flac_tags"
version = "0.1.0"
edition = "2021"
publish = false

[dependencies]
metaflac = "0.2"
walkdir = "2"
