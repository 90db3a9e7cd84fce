[package]
name = "wahoo"
version = "0.1.0"
edition = "2021"
publish = false

[dependencies]
postgres = "*"
regex = "*"
reqwest = { version = "*", default-features = false, features = ["blocking", "json"] }
select = "*"
serde = { version = "*", features = ["derive"] }
serde_json = "*"
