[package]
name = "hikaru"
version = "0.1.0"
edition = "2021"
publish = false

[dependencies]
anyhow = "=1.0.104"
hcl-rs = "=0.19.8"
log = "=0.4.34"
quick-xml = { version = "=0.42.0", features = ["serialize"] }
reqwest = { version = "=0.13.5", default-features = false, features = ["cookies", "form"] }
serde = { version = "=1.0.229", features = ["derive"] }
simple_logger = "=5.2.0"
tokio = { version = "=1.53.2", features = ["macros", "rt-multi-thread", "time"] }
wildcard = "=0.3.0"
