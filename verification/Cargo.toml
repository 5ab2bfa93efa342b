[package]
name = "frontend"
version = "0.1.0"
edition = "2021"
publish = false

[dependencies]
uuid = "=1.29.0"
chrono = "=0.4.45"
serde = { version = "=1.0.229", features = ["derive"] }
serde_json = "=1.0.154"
actix-web = { version = "=4.18.1", default-features = false, features = ["macros", "cookies", "secure-cookies"] }
actix-identity = "=0.9.0"
actix-session = { version = "=0.11.0", features = ["cookie-session"] }
reqwest = { version = "=0.13.5", default-features = false, features = ["json"] }
tera = { version = "=1.20.1", default-features = false }
ollama-rs = "=0.3.6"
schemars = "=1.2.3"
dotenv = "=0.15.0"
env_logger = "=0.11.11"
fluent-templates = { version = "=0.13.3", features = ["tera"] }
tera-text-filters = "=1.0.0"
