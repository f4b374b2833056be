[package]
name = "rizwold"
version = "0.1.0"
edition = "2021"
publish = false

[dependencies]
chrono = { version = "=0.4.45", features = ["serde"] }
clap = { version = "=4.6.7", features = ["derive", "env"] }
rrule = "=0.14.0"
rusqlite = { version = "=0.40.2", features = ["bundled", "chrono"] }
serde = { version = "=1.0.229", features = ["derive"] }
serde_json = "=1.0.151"
ureq = { version = "=3.4.2", features = ["json"] }
url = "=2.5.8"
uuid = { version = "=1.27.0", features = ["serde", "v5"] }
