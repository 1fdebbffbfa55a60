[package]
name = "shortener"
version = "0.1.0"
edition = "2021"
publish = false

[dependencies]
rand = "=0.10.3"
actix-web = { version = "=4.15.0", default-features = false, features = ["macros"] }
actix-rt = "=2.15.0"
sqlx = { version = "=0.9.0", default-features = false, features = ["runtime-tokio", "sqlite"] }
tera = { version = "=2.4.0", default-features = false, features = ["glob_fs"] }
serde = { version = "=1.0.229", features = ["derive"] }
dotenv = "=0.15.0"
log = "=0.4.34"
pretty_env_logger = "=0.5.0"
anyhow = "=1.0.104"
