[package]
name = "pwmp"
version = "0.1.0"
edition = "2021"
publish = false

[dependencies]
clap = { version = "*", features = ["derive"] }
confy = "*"
homedir = "*"
log = "*"
serde = { version = "*", features = ["derive"] }
simple_logger = "*"
sqlx = { version = "*", default-features = false, features = ["postgres", "runtime-tokio"] }
thiserror = "*"
tokio = { version = "*", features = ["rt-multi-thread"] }
users = "*"
