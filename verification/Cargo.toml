[package]
name = "osugit"
version = "0.1.0"
edition = "2021"
publish = false

[dependencies]
actix-web = "=4.18.1"
anyhow = "=1.0.104"
chrono = "=0.4.45"
futures = "=0.3.34"
git2 = { version = "=0.21.0", default-features = false }
log = "=0.4.34"
parking_lot = "=0.13.0"
reqwest = { version = "=0.13.5", features = ["json", "query", "form"] }
serde = { version = "=1.0.229", features = ["derive"] }
serde_json = "1"
stderrlog = "=0.6.0"
structopt = "=0.3.26"
tokio = { version = "=1.54.1", features = ["full"] }
toml = "=0.5.11"
