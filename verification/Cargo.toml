[package]
name = "zweiton"
version = "0.1.0"
edition = "2021"
publish = false

[dependencies]
anyhow = "=1.0.104"
clap = { version = "=4.6.7", features = ["derive"] }
cpal = "=0.18.2"
eframe = { version = "=0.37.0", default-features = false, features = ["default_fonts", "glow", "x11"] }
hound = "=3.5.1"
nice-plug = { version = "=0.4.2", default-features = false, features = ["vst3"] }
thiserror = "=2.0.21"
