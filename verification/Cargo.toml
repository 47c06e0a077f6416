[package]
name = "airpods_gnome_daemon"
version = "0.1.0"
edition = "2021"
publish = false

[dependencies]
aes = "0.8"
anyhow = "1"
bluer = { version = "0.17", features = ["l2cap"] }
futures-util = "0.3"
serde = { version = "1", features = ["derive"] }
serde_json = "1"
tokio = { version = "1", features = ["rt", "macros", "process", "time", "net", "io-util", "signal", "sync"] }
zbus = { version = "5", default-features = false, features = ["tokio"] }
