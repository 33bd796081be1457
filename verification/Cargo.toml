[package]
name = "workbench"
version = "0.1.0"
edition = "2021"
publish = false

[dependencies]
sha2 = "=0.10.9"
hex = "=0.4.3"
rand = "=0.8.8"
regex = "=1.13.1"
chrono = { version = "=0.4.45", features = ["serde"] }
bcrypt = "=0.15.1"
tokio = { version = "=1.54.1", features = ["full"] }
clap = { version = "=4.6.7", features = ["derive"] }
structopt = "=0.3.26"
serde = { version = "=1.0.229", features = ["derive"] }
serde_json = "=1.0.154"
sled = "=0.34.7"
rusqlite = { version = "=0.32.1", features = ["bundled"] }
log = "=0.4.35"
env_logger = "=0.10.2"
dotenv = "=0.15.0"
uuid = { version = "=1.29.0", features = ["v4", "serde"] }
rust_decimal = "=1.43.0"
rustfft = "=6.4.1"
crossterm = "=0.25.0"
tui = "=0.19.0"
reqwest = { version = "=0.11.27", default-features = false, features = ["json"] }
actix-web = { version = "4", default-features = false, features = ["macros"] }
sqlx = { version = "=0.8.6", default-features = false, features = ["runtime-tokio", "postgres", "uuid", "chrono", "rust_decimal", "macros"] }
image = { version = "0.24", default-features = false, features = ["png"] }
