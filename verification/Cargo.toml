[package]
name = "realtime_translation"
version = "0.1.0"
edition = "2021"
publish = false

[dependencies]
anyhow = "1"
base64 = "0.22"
bytemuck = "1"
dotenvy = "0.15"
eframe = { version = "0.32", default-features = false, features = ["default_fonts", "glow", "x11"] }
egui = { version = "0.32", default-features = false }
env_logger = { version = "0.11", default-features = false, features = ["humantime"] }
futures-util = { version = "0.3", default-features = false, features = ["sink", "std"] }
hound = "3.5"
log = "0.4"
reqwest = { version = "0.12", default-features = false, features = ["json", "rustls-tls"] }
ringbuf = "0.4"
rubato = { version = "0.16", default-features = false }
rustls = { version = "0.23", default-features = false, features = ["ring", "std", "tls12"] }
serde = { version = "1", features = ["derive"] }
serde_json = "1"
thiserror = "2"
tokio = { version = "1", default-features = false, features = ["macros", "rt-multi-thread", "sync", "time"] }
tokio-tungstenite = { version = "0.27", default-features = false, features = ["connect", "rustls-tls-webpki-roots"] }
toml = { version = "0.8", default-features = false, features = ["parse"] }
