[package]
name = "png_viewer"
version = "0.1.0"
edition = "2021"
publish = false

[dependencies]
flate2 = "1"
nom = "7"
native-dialog = "0.7"
rand = "0.8"
termcolor = "1"
thiserror = "1"
tokio = { version = "1", features = ["fs", "sync"] }
tracing = "0.1"
tracing-subscriber = { version = "0.3", features = ["env-filter"] }
