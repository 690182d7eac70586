[package]
name = "discord_bot"
version = "0.1.0"
edition = "2021"
publish = false

[dependencies]
sysinfo = { version = "=0.30.13", default-features = false }
tokio = { version = "=1.54.1", features = ["macros", "rt-multi-thread", "sync", "time"] }
dotenvy = "=0.15.7"
serenity = { version = "0.12", default-features = false, features = ["builder", "cache", "client", "gateway", "model", "http", "rustls_backend", "utils"] }
