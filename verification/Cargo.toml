[package]
name = "gitools"
version = "0.1.0"
edition = "2021"
publish = false

[dependencies]
anyhow = "1"
chrono = "0.4"
druid = { version = "0.7", features = ["im"] }
fern = "0.6"
git2 = { version = "0.13", default-features = false }
im = "15"
log = "0.4"
serde = { version = "1", features = ["derive"] }
toml = "0.5"
