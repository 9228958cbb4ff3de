[package]
name = "lle_gui"
version = "0.1.0"
edition = "2021"
publish = false

[dependencies]
poll-promise = { version = "=0.3.0", features = ["tokio"] }
tokio = { version = "=1.54.1", features = ["rt-multi-thread"] }
colorous = "=1.0.16"
serde = { version = "=1.0.229", features = ["derive"] }
ron = "=0.12.3"
anyhow = "=1.0.104"
egui = "=0.37.0"
enum-iterator = "=2.3.0"
num-traits = "=0.2.19"
num-complex = "0.4"
rayon = "=1.12.0"
