[package]
name = "rayfish"
version = "0.1.0"
edition = "2021"
publish = false

[dependencies]
bytes = "1"
iroh = { version = "*", default-features = false }
mime_guess = "2"
humansize = "2"
