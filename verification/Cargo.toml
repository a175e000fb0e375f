[package]
name = "biliticket"
version = "0.1.0"
edition = "2021"
publish = false

[dependencies]
reqwest = { version = "=0.12.28", default-features = false, features = ["cookies"] }
serde = { version = "=1.0.229", features = ["derive"] }
serde_json = "=1.0.154"
log = "=0.4.35"
egui = { version = "=0.26.2", default-features = false, features = ["default_fonts"] }
