[package]
name = "dopper"
version = "0.1.0"
edition = "2021"
publish = false

[dependencies]
anyhow = "1"
argon2 = "0.5"
base64 = "0.22"
clap = { version = "4", features = ["derive"] }
comfy-table = "7"
directories = "5"
env_logger = "0.11"
hex = "0.4"
keyring = "3"
log = "0.4"
md5 = "0.7"
path-clean = "1"
rand = "0.8"
rpassword = "7"
rusqlite = { version = "0.32", features = ["bundled-sqlcipher"] }
serde = { version = "1", features = ["derive"] }
serde_json = "1"
thiserror = "1"
tokio = { version = "1", features = ["macros", "rt-multi-thread"] }
toml = "0.8"
uuid = { version = "1", features = ["v4"] }
zeroize = { version = "1", features = ["derive"] }
