[package]
name = "kutter"
version = "0.1.0"
edition = "2021"
publish = false

[dependencies]
regex = "*"
chrono = "*"
serde = { version = "*", features = ["derive"] }
serde_json = "*"
tokio = { version = "*", default-features = false, features = ["sync", "rt-multi-thread", "macros"] }
actix-web = { version = "*", default-features = false, features = ["macros", "cookies"] }
actix-ws = "*"
actix-rt = "*"
actix-cors = "*"
actix-files = "*"
futures-util = "*"
dotenv = "*"
sqlx = { version = "*", default-features = false, features = ["runtime-tokio", "postgres", "chrono"] }
