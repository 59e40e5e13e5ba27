[package]
name = "slideshow"
version = "0.1.0"
edition = "2021"
publish = false

[dependencies]
iced = { version = "0.4", features = ["image", "tokio"] }
iced_native = "0.5"
native-dialog = "=0.5.8"
