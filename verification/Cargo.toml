[package]
name = "sprite_packer"
version = "0.1.0"
edition = "2021"
publish = false

[dependencies]
confy = "0.5"
image = { version = "0.24", default-features = false, features = ["png"] }
log = "0.4"
notify = "6"
rayon = "1"
serde = { version = "1", features = ["derive"] }
serde_json = "1"
simple-logging = "2"
