[package]
name = "rooc"
version = "0.1.0"
edition = "2021"
publish = false

[dependencies]
pest = "*"
good_lp = { version = "*", default-features = false, features = ["clarabel"] }
indexmap = "*"
serde = { version = "*", features = ["derive"] }
term-table = "*"
wasm-bindgen = "*"
dyn-clone = "*"
erased-serde = "*"
