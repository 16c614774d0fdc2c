[package]
name = "bp_core"
version = "0.1.0"
edition = "2021"
publish = false

[dependencies]
serde = { version = "*", features = ["derive"] }
serde_json = "*"
uuid = { version = "*", features = ["v4"] }
chrono = "*"
tokio = { version = "*", features = ["full"] }
sqlx = { version = "*", default-features = false, features = ["postgres", "runtime-tokio", "chrono", "uuid", "json", "derive"] }
racoon = "*"
image = { version = "*", default-features = false, features = ["png", "jpeg"] }
log = "*"
env_logger = "*"
dotenv = "*"
futures-util = "*"
