[package]
name = "fixture_manager"
version = "0.1.0"
edition = "2021"
publish = false

[dependencies]
camino = "=1.2.6"
diffy = { version = "=0.5.2", features = ["std"] }

[dev-dependencies]
hakari = "=0.18.0"
