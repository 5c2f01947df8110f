[package]
name = "picnest"
version = "0.1.0"
edition = "2021"
publish = false

[dependencies]
blake3 = "=1.8.7"
chrono = "=0.4.45"
serde = { version = "=1.0.229", features = ["derive"] }
serde_json = "=1.0.154"
base64 = "=0.22.1"
image = { version = "=0.25.10", default-features = false, features = ["jpeg", "png", "webp", "gif", "bmp", "tiff"] }
infer = "=0.22.0"
kamadak-exif = "=0.6.1"
rusqlite = { version = "=0.41.1", features = ["bundled", "backup", "functions"] }
uuid = { version = "=1.29.0", features = ["v4"] }
walkdir = "=2.5.0"
fs2 = "=0.4.3"
trash = "=5.2.9"
keyring = { version = "=3.6.3", features = ["windows-native"] }
reqwest = { version = "=0.12.28", default-features = false, features = ["json", "rustls-tls"] }
notify = "=8.2.1"
dirs = "=7.0.0"
log = "=0.4.35"
thiserror = "=2.0.21"
windows = { version = "=0.62.2", features = ["Foundation", "Graphics_Imaging", "Media_Ocr", "Storage", "Storage_Streams"] }
