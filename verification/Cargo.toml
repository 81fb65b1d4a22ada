[package]
name = "maolan_player"
version = "0.1.0"
edition = "2021"
publish = false

[dependencies]
ksni = { version = "=0.3.7", default-features = false, features = ["tokio"] }
libc = "0.2"
maolan-engine = { version = "=0.4.20", features = ["audio"] }
resvg = { version = "=0.49.0", default-features = false }
rfd = { version = "=0.17.2", default-features = false, features = ["xdg-portal"] }
serde = { version = "1", features = ["derive"] }
tiny-skia = "0.12"
tokio = { version = "1", features = ["full"] }
toml = "1"
