[package]
name = "truth_or_dare"
version = "0.1.0"
edition = "2021"
publish = false

[dependencies]
dotenvy = "0.15"
env_logger = "0.11"
log = "0.4"
poise = "0.6"
rusqlite = { version = "*", features = ["bundled"] }
tokio = { version = "1", features = ["macros", "rt-multi-thread", "time"] }
