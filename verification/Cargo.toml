[package]
name = "runtime_injector"
version = "0.1.0"
edition = "2021"
publish = false

[dependencies]
actix-web = { version = "4", default-features = false }
derive_more = "0.99"
downcast-rs = "1.2"
futures-util = { version = "0.3", default-features = false }
