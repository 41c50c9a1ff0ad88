[package]
name = "tls_xb"
version = "0.1.0"
edition = "2021"
publish = false

[dependencies]
base64 = "*"
chrono = "*"
clap = { version = "*", features = ["derive"] }
colored = "*"
confy = "*"
env_logger = "*"
futures = "*"
icalendar = "*"
image = { version = "*", default-features = false, features = ["png"] }
log = "*"
md5 = "*"
reqwest = { version = "*", features = ["json", "cookies"] }
rpassword = "*"
serde = { version = "*", features = ["derive"] }
serde_json = "*"
tabled = "*"
tokio = { version = "*", features = ["macros", "rt-multi-thread"] }
viuer = "*"
