[package]
name = "marker_sweep"
version = "0.1.0"
edition = "2021"
publish = false

[dependencies]
clap = { version = "4", features = ["derive"] }
git2 = { version = "0.19", default-features = false }
glob = "0.3"
thiserror = "1"
walkdir = "2"
