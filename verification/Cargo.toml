[package]
name = "supershot"
version = "1.3.0"
edition = "2021"
publish = false

[dependencies]
chrono = "0.4"
image = { version = "0.25", default-features = false, features = ["png", "jpeg"] }
gtk4 = { version = "0.9", features = ["v4_14"] }
libadwaita = { version = "0.7", features = ["v1_5"] }
glib = "0.20"
cairo-rs = "0.20"
pango = "0.20"
pangocairo = "0.20"
ashpd = "0.10"
tokio = { version = "1", features = ["rt-multi-thread"] }
gettext-rs = "0.7"
dirs = "5"
clap = { version = "4", features = ["derive"] }
