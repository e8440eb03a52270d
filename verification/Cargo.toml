[package]
name = "binary-inspector"
version = "0.2.0"
edition = "2021"
publish = false

[dependencies]
clap = { version = "4", features = ["derive"] }
serde = { version = "1", features = ["derive"] }
serde_json = "1"
sha2 = "0.10"
libc = "0.2"
eframe = { version = "0.37", default-features = false, features = ["glow", "default_fonts", "x11"] }
rfd = "0.17"
