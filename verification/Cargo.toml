[package]
name = "walkers"
version = "0.1.0"
edition = "2021"
publish = false

[dependencies]
egui = "=0.22.0"
egui_extras = { version = "=0.22.0", features = ["image"] }
image = { version = "=0.24.9", default-features = false, features = ["png"] }
tokio = { version = "=1.53.2", features = ["sync", "rt-multi-thread"] }
reqwest = { version = "=0.11.27", default-features = false, features = ["rustls-tls", "blocking"] }

[dev-dependencies]
mockito = "1"
