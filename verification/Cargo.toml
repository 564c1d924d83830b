[package]
name = "audiocontrol"
version = "0.1.0"
edition = "2021"
publish = false

[dependencies]
base64 = "=0.22.1"
md5 = "=0.7.0"
urlencoding = "=2.1.3"
hex = "=0.4.3"
mac_address = "=1.2.1"
image = { version = "=0.25.10", default-features = false, features = ["jpeg", "png", "webp"] }
serde = { version = "=1.0.229", features = ["derive"] }
serde_json = "=1.0.154"
thiserror = "=1.0.69"
log = "=0.4.35"
parking_lot = "=0.12.5"
once_cell = "=1.21.4"
lazy_static = "=1.5.1"
ureq = "=2.12.1"
moka = { version = "=0.12.16", features = ["sync"] }
lru = "=0.12.5"
chrono = "=0.4.45"
rusqlite = { version = "=0.31.0", features = ["bundled"] }
dbus = "=0.9.12"
deunicode = "=1.6.2"
strsim = "=0.11.1"
musicbrainz_rs = { version = "=0.14.0", features = ["sync", "rustls"] }
tokio = { version = "=1.54.1", features = ["rt", "rt-multi-thread"] }
