[package]
name = "fak"
version = "0.1.0"
edition = "2021"
publish = false

[dependencies]
similar = "=3.2.1"
clap = { version = "=4.6.7", features = ["derive"] }
dotenvy = "=0.15.7"
tokio = { version = "=1.54.1", features = ["macros", "rt-multi-thread"] }
rig-core = "=0.35.0"
reqwest = { version = "=0.13.5", default-features = false, features = ["json"] }
serde = { version = "=1.0.229", features = ["derive"] }
encoding_rs = "=0.8.44"
tempfile = "=3.27.0"
