[package]
name = "jd_organizer"
version = "0.1.0"
edition = "2021"
publish = false

[dependencies]
serde_json = "*"
uuid = { version = "*", features = ["v4"] }
chrono = "*"
serde = { version = "*", features = ["derive"] }
sha2 = "*"
rusqlite = { version = "*", features = ["bundled"] }
walkdir = "*"
mime_guess = "*"
log = "*"
env_logger = "*"
thiserror = "*"
reqwest = { version = "*", default-features = false, features = ["json"] }
tokio = { version = "*", features = ["rt-multi-thread", "macros", "time", "fs"] }
