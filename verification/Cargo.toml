[package]
name = "amnezia-xray-admin"
version = "0.1.0"
edition = "2021"
publish = false

[dependencies]
serde_json = "=1.0.154"
base64 = "=0.22.1"
qrcode = { version = "=0.14.1", default-features = false, features = ["image"] }
image = { version = "=0.25.10", default-features = false, features = ["png"] }
uuid = { version = "=1.29.0", features = ["v4"] }
dirs = "=5.0.1"
clap = { version = "=4.6.7", features = ["derive", "env"] }
tokio = { version = "=1.54.1", features = ["full"] }
teloxide = { version = "=0.13.0", default-features = false, features = ["macros", "rustls", "ctrlc_handler"] }
# Not used by the code: pins the version of teloxide's own `takecell` dependency to one that
# builds with this toolchain.
takecell = "=0.1.1"
dptree = "=0.3.0"
russh = "=0.45.0"
russh-keys = "=0.45.0"
async-trait = "=0.1.92"
serde = { version = "=1.0.229", features = ["derive"] }
toml = "=0.8.23"
log = "=0.4.35"
env_logger = "=0.11.11"
ratatui = "=0.29.0"
crossterm = "=0.28.1"
