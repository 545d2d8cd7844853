[package]
name = "clarity"
version = "0.1.0"
edition = "2021"
publish = false

[dependencies]
base64 = "=0.22.1"
hmac = "=0.12.1"
rand = "=0.8.8"
ring = "=0.17.14"
serde_json = "=1.0.154"
sha1 = "=0.10.7"
sha2 = "=0.10.9"
subtle = "=2.6.1"
time = { version = "=0.3.55", features = ["formatting", "parsing"] }
url = "=2.5.8"
uuid = { version = "=1.29.0", features = ["v4"] }
anyhow = "=1.0.104"
clap = { version = "=4.6.7", default-features = false, features = ["derive", "std", "help", "usage", "error-context"] }
futures-util = "=0.3.34"
tokio = { version = "=1.54.1", features = ["macros", "rt-multi-thread", "sync", "time", "net", "io-util", "io-std", "process", "signal"] }
tokio-tungstenite = "=0.30.0"
rustls = { version = "=0.23.46", default-features = false, features = ["ring", "std"] }
reqwest = { version = "=0.12.28", default-features = false, features = ["json", "rustls-tls"] }
tracing = "=0.1.44"
tracing-subscriber = { version = "=0.3.23", default-features = false, features = ["fmt"] }
eframe = { version = "=0.37.0", default-features = false, features = ["glow", "x11"] }
egui = "=0.37.0"
png = "=0.18.1"
