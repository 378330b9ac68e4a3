[package]
name = "txt_novel_parser"
version = "0.1.0"
edition = "2021"
publish = false

[dependencies]
chardetng = "*"
encoding_rs = "*"
md5 = "*"
serde = { version = "*", features = ["derive"] }
