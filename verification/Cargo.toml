[package]
name = "torch_build"
version = "0.1.0"
edition = "2021"
publish = false

[dependencies]
anyhow = "1"
bindgen = "*"
cc = "1"
indexmap = "2"
log = "0.4"
once_cell = "1"
os_info = "*"
rustacuda = "*"
serde = { version = "1", features = ["derive"] }
toml = "*"
ureq = "2"
zip = "*"
