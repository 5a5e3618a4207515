[package]
name = "interprocess"
version = "0.1.0"
edition = "2021"
publish = false

[dependencies]
futures-core = "0.3"
futures-io = "0.3"
libc = "0.2"
tokio = { version = "1", default-features = false, features = ["net", "rt"] }
