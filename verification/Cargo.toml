[package]
name = "lenso-jobs"
version = "0.1.0"
edition = "2021"
publish = false

[dependencies]
base64 = "0.22"
futures = "0.3"
getrandom = "0.3"
lenso-capability-secrets = "*"
lenso-kernel = "*"
lenso-native-adapter = "*"
lenso-postgres-kit = "*"
serde = { version = "1", features = ["derive"] }
serde_json = "1"
sha2 = "0.10"
sqlx = { version = "*", default-features = false, features = ["postgres", "runtime-tokio", "time", "json"] }
thiserror = "2"
time = { version = "0.3", features = ["formatting", "parsing"] }
zeroize = "1"
