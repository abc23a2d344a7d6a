[package]
name = "rustedex_gen"
version = "0.1.0"
edition = "2021"
publish = false

[dependencies]
anyhow = "1"
clap = { version = "4", features = ["derive", "env"] }
dotenvy = "*"
flume = "*"
futures-util = "*"
indicatif = "*"
inquire = "*"
rustemon = "*"
serde = { version = "1", features = ["derive"] }
tera = "1"
tokio = { version = "1", features = ["full"] }
warp = "0.3"
