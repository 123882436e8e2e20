[package]
name = "fanout_core"
version = "0.1.0"
edition = "2021"
publish = false

[dependencies]
redis = { version = "=1.7.1", features = ["tokio-comp"] }
salvo = { version = "=1.0.1", features = ["websocket", "affix-state"] }
tokio = { version = "=1.53.2", features = ["full"] }
tokio-stream = "=0.1.19"
futures-util = "=0.3.34"
sqlx = { version = "=0.9.0", default-features = false, features = ["postgres", "runtime-tokio"] }
dotenvy = "=0.15.7"
serde = { version = "*", features = ["derive"] }
serde_json = "=1.0.151"

[dev-dependencies]
wildmatch = "=2.6.1"
