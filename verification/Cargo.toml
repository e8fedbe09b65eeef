[package]
name = "freecarnival"
version = "0.1.0"
edition = "2021"
publish = false

[dependencies]
clap = { version = "*", features = ["derive"] }
confy = "*"
csv = "*"
reqwest = { version = "*", default-features = false, features = ["cookies"] }
reqwest_cookie_store = "*"
rpassword = "*"
serde = { version = "*", features = ["derive"] }
serde_json = "*"
thiserror = "*"
time = "*"
tokio = { version = "*", features = ["macros", "rt-multi-thread", "process", "fs"] }
