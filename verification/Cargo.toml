[package]
name = "silica"
version = "0.1.0"
edition = "2021"
publish = false

[dependencies]
lzokay = "*"
plist = "*"
zip = { version = "*", default-features = false, features = ["deflate"] }
image = { version = "*", default-features = false, features = ["png"] }
