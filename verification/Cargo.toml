[package]
name = "accesskit"
version = "0.1.0"
edition = "2021"
publish = false

[dependencies]
atspi = "=0.3.12"
enumset = { version = "=1.1.15", features = ["serde"] }
kurbo = { version = "=0.8.3", features = ["serde"] }
parking_lot = "=0.12.5"
serde = { version = "=1.0.229", features = ["derive", "rc"] }
zbus = "=3.15.2"
