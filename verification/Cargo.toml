[package]
name = "solidcpp"
version = "0.1.0"
edition = "2021"
publish = false

[dependencies]
byteorder = "1"
clap = { version = "4", features = ["derive"] }
globwalk = "0.9"
hex = "0.4"
regex = "1"
serde_json = "1"
sha3 = "0.10"
