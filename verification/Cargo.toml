[package]
name = "cling"
version = "0.1.0"
edition = "2021"
publish = false

[dependencies]
anyhow = "=1.0.104"
clap = { version = "=4.6.7", features = ["derive"] }
directories = "=5.0.1"
regex = "=1.13.1"
rusqlite = { version = "=0.31.0", features = ["bundled-sqlcipher-vendored-openssl"] }
serde = { version = "=1.0.229", features = ["derive"] }
serde_json = "=1.0.154"
tokio = { version = "=1.54.1", features = ["full"] }
tracing = "=0.1.44"
tracing-subscriber = { version = "=0.3.23", features = ["env-filter"] }
x11rb = { version = "=0.13.2", features = ["xfixes", "xtest"] }
zbus = { version = "=4.4.0", default-features = false, features = ["tokio"] }
zvariant = { version = "=4.2.0", features = ["option-as-array"] }
