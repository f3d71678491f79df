[package]
name = "bambusa"
version = "0.1.0"
edition = "2021"
publish = false

[dependencies]
zbus = { version = "=5.19.0", default-features = false, features = ["tokio"] }
zvariant = "=5.15.1"
tokio = { version = "=1.54.1", features = ["rt-multi-thread", "macros", "sync"] }
serde = { version = "=1.0.229", features = ["derive"] }
gettext-rs = "=0.7.7"
gio = "=0.20.12"
regex = "=1.13.1"
gtk4 = { version = "0.9", features = ["v4_10"] }
libadwaita = { version = "0.7", features = ["v1_4"] }
