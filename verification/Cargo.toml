[package]
name = "tirinha"
version = "0.1.0"
edition = "2021"
publish = false

[dependencies]
select = "*"
reqwest = { version = "*", default-features = false, features = ["blocking"] }
tempfile = "*"
uuid = { version = "*", features = ["v4"] }
sdl2 = { version = "*", features = ["image"] }
