[package]
name = "capscr"
version = "0.1.0"
edition = "2021"
publish = false

[dependencies]
anyhow = "1"
arboard = { version = "3", default-features = false, features = ["image-data"] }
chrono = "0.4"
directories = "5"
hex = "0.4"
image = { version = "0.25", default-features = false, features = ["png", "jpeg", "gif", "webp", "bmp"] }
libc = "0.2"
miniz_oxide = "0.8"
notify-rust = "4"
png = "0.17"
serde = { version = "1", features = ["derive"] }
serde_json = "1"
sha2 = "0.10"
toml = "0.8"
tracing = "0.1"
url = "2"
uuid = { version = "1", features = ["v4"] }
x11rb = "0.13"
zbus = "5"
zip = { version = "2", default-features = false, features = ["deflate"] }
