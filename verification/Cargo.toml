[package]
name = "tailcall"
version = "0.1.0"
edition = "2021"
publish = false

[dependencies]
convert_case = "0.6"
stripmargin = "*"
serde = { version = "1", features = ["derive"] }
schemars = "0.8"
serde_json_borrow = "*"
inquire = "*"
resource = "*"
anyhow = "1"
