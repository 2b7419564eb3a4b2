[package]
name = "mycode"
version = "0.1.0"
edition = "2021"
publish = false

[dependencies]
base64 = "=0.22.1"
clap = { version = "4", features = ["derive"] }
crossterm = { version = "0.29", features = ["event-stream", "osc52"] }
futures-util = "0.3"
nix = { version = "0.30", features = ["signal"] }
ratatui = "0.30"
reqwest = { version = "0.12", default-features = false, features = ["json", "rustls-tls", "stream"] }
serde = { version = "1", features = ["derive"] }
serde_json = "1"
textwrap = "=0.16.4"
thiserror = "2"
tokio = { version = "1", features = ["full"] }
tokio-util = "0.7"
unicode-segmentation = "=1.13.3"
unicode-width = "0.2"
uuid = { version = "=1.29.0", features = ["v4"] }
