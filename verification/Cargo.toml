[package]
name = "bootdrive"
version = "0.1.0"
edition = "2021"
publish = false

[dependencies]
anyhow = "1"
async-channel = "2"
clap = { version = "4", features = ["derive"] }
ctrlc = "3"
futures-util = "0.3"
gio = "*"
glib = "*"
gtk4 = "*"
libadwaita = "*"
roxmltree = "*"
rustix = { version = "*", features = ["process"] }
serde = { version = "1", features = ["derive"] }
serde_json = "1"
thiserror = "2"
tokio = { version = "1", features = ["rt", "rt-multi-thread", "macros", "sync", "signal"] }
tracing = "0.1"
tracing-subscriber = { version = "0.3", features = ["env-filter"] }
usb-gadget = "*"
zbus = { version = "5", default-features = false, features = ["tokio"] }
