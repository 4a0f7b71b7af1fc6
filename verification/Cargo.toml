[package]
name = "rfc_view"
version = "0.1.0"
edition = "2021"
publish = false

[dependencies]
tl = "0.7"
actix-web = "4"
askama = "0.12"
askama_actix = "0.14"
reqwest = "0.11"
tokio = { version = "1", features = ["macros", "rt-multi-thread"] }
