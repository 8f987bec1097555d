[package]
name = "dash_pipeline"
version = "0.1.0"
edition = "2021"
publish = false

[dependencies]
serde_json = "1"
clap = "2"
colored = "2"
fs_extra = "1"
threadpool = "1"
walkdir = "2"

[dev-dependencies]
regex = "1"
