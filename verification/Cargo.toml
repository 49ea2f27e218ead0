[package]
name = "newfoundsync"
version = "0.1.0"
edition = "2021"
publish = false

[dependencies]
anyhow = "1"
axum = { version = "0.8", default-features = false, features = ["http1", "tokio", "ws"] }
axum-server = { version = "*", default-features = false, features = ["tls-rustls-no-provider"] }
clap = { version = "4", default-features = false, features = ["derive", "std", "help", "usage"] }
eframe = { version = "*", default-features = false, features = ["glow", "x11", "default_fonts"] }
env-libvpx-sys = "*"
futures-util = "0.3"
libpulse-binding = "2"
libpulse-simple-binding = "2"
openh264 = "*"
qrcode = { version = "0.14", default-features = false }
rayon = "1"
rcgen = { version = "0.14", default-features = false, features = ["pem", "ring"] }
rustls = { version = "0.23", default-features = false, features = ["ring", "std", "tls12"] }
shiguredo_svt_av1 = "*"
tokio = { version = "1", features = ["full"] }
tracing = "0.1"
tracing-subscriber = { version = "0.3", features = ["env-filter"] }
