[package]
name = "ampscan"
version = "1.4.1"
edition = "2021"
publish = false

[dependencies]
anyhow = "1"
argon2 = "0.5"
chrono = "0.4"
clap = { version = "4", features = ["derive", "env"] }
colored = "2"
comfy-table = "7"
crossterm = "0.28"
image = { version = "0.24", default-features = false, features = ["png", "jpeg"] }
ipnet = "2"
libc = "0.2"
printpdf = { version = "0.7", features = ["embedded_images"] }
rand = "0.8"
ratatui = "0.29"
rpassword = "7"
rusqlite = { version = "0.32", features = ["bundled-sqlcipher"] }
serde = { version = "1", features = ["derive"] }
tokio = { version = "1", features = ["full"] }
toml = "0.8"
uuid = { version = "1", features = ["v4"] }
zeroize = "1.8"
