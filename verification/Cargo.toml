[package]
name = "mimium_plugin_core"
version = "0.1.0"
edition = "2021"
publish = false

[dependencies]
serde = { version = "=1.0.229", features = ["derive"] }
serde_json = "=1.0.154"
base64 = "=0.22.1"
url = "=2.5.8"
dotenvy = "=0.15.7"
include_dir = "=0.7.4"
libc = "=0.2.191"
raw-window-handle = "=0.6.2"
arboard = { version = "=3.7.0", default-features = false }
mimium-lang = "=4.1.1"
mimium-plugin-macros = "=4.1.1"
clack-plugin = "=0.2.0"
clack-extensions = { version = "=0.2.0", features = ["audio-ports", "gui", "params", "state"] }
