[package]
name = "carbon"
version = "0.1.0"
edition = "2021"
publish = false

[dependencies]
regex = "1"
rcalc_lib = "*"
uuid = { version = "1", features = ["v4"] }
serde = { version = "1", features = ["derive"] }
serde_json = "1"
serde_yaml = "0.9"
handlebars = "*"
handlebars_misc_helpers = { version = "*", default-features = false, features = ["string", "json"] }
libloading = "*"
log = "0.4"
env_logger = "*"
actix-web = { version = "4", default-features = false }
reqwest = { version = "0.12", default-features = false }
tokio = { version = "1", features = ["rt", "rt-multi-thread"] }
