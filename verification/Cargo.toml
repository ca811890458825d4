[package]
name = "jvm"
version = "0.1.0"
edition = "2021"
publish = false

[dependencies]
handlebars = "=6.4.4"
libc = "=0.2.191"
serde = { version = "=1.0.229", features = ["derive"] }
