[package]
name = "usagi"
version = "0.1.0"
edition = "2021"
publish = false

[dependencies]
serde_json = "1"
clap = { version = "4", features = ["derive"] }
tempfile = "3"
time = "0.3"
zip = { version = "*", default-features = false, features = ["deflate"] }
gif = "*"
png = "*"
directories = "*"
mlua = { version = "*", features = ["lua54", "vendored"] }
sola-raylib = "*"
freetype-rs = "*"
enable-ansi-support = "*"
