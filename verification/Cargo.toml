[package]
name = "m64prs"
version = "0.1.0"
edition = "2021"
publish = false

[dependencies]
rand = "0.8"
interprocess = { version = "2", features = ["tokio"] }
tokio = { version = "1", features = ["rt", "sync", "macros"] }
tokio-util = { version = "0.7", features = ["codec"] }
futures = "0.3"
walkdir = "2"
os_pipe = "1"
env_logger = "0.11"
dlopen2 = "0.7"
ash = "0.38"
gio = "0.20"
glib = "0.20"
