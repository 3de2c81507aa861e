[package]
name = "argos"
version = "0.1.0"
edition = "2021"
publish = false

[dependencies]
postcard = { version = "=1.1.3", features = ["alloc"] }
serde = { version = "=1.0.229", features = ["derive"] }
image = { version = "=0.25.10", default-features = false, features = ["png", "jpeg"] }
hound = "=3.5.1"
thiserror = "=2.0.21"
anyhow = "=1.0.104"
tokio = { version = "=1.54.1", features = ["macros", "rt-multi-thread", "sync", "time"] }
earshot = "=1.2.2"
glam = "=0.34.2"
futures = "=0.3.34"
serde_json = "=1.0.154"
colored = "=3.1.1"
rustyline = "=19.0.0"
tracing = "=0.1.44"
tracing-subscriber = { version = "=0.3.23", features = ["env-filter"] }
zenoh = { version = "=1.10.2", default-features = false, features = ["transport_tcp"] }
cpal = "=0.18.2"
xgo = "=0.1.1"
libcamera = "=0.7.0"
