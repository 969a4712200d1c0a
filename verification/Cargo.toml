[package]
name = "lard"
version = "0.1.0"
edition = "2021"
publish = false

[dependencies]
chrono = "=0.4.45"
chronoutil = "=0.2.7"
tokio = { version = "=1.54.1", features = ["rt-multi-thread", "macros", "net", "sync", "time"] }
tokio-postgres = { version = "=0.7.18", features = ["with-chrono-0_4"] }
bb8 = "=0.8.6"
bb8-postgres = "=0.8.1"
axum = "=0.7.9"
serde = { version = "=1.0.229", features = ["derive"] }
thiserror = "=1.0.69"
csv = "=1.4.0"
futures = "=0.3.34"
quick-xml = { version = "=0.36.2", features = ["serialize"] }
kafka = "=0.10.0"
toml = "=0.8.23"
rove = "=0.3.0"
async-trait = "=0.1.92"

[dev-dependencies]
regex = "=1.13.1"
