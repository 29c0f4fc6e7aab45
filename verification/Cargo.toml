[package]
name = "omapaste"
version = "0.2.1"
edition = "2021"
publish = false

[dependencies]
rusqlite = { version = "*", features = ["bundled"] }
sha2 = "*"
hex = "*"
toml = "*"
serde = { version = "*", features = ["derive"] }
serde_json = "*"
chrono = "*"
log = "*"
env_logger = "*"
async-channel = "*"
glib = "*"
gio = "*"
gtk4 = "*"
gdk4 = "*"
gdk-pixbuf = "*"
gtk4-layer-shell = "*"

[dev-dependencies]
tempfile = "*"
