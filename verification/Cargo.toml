[package]
name = "temper"
version = "0.1.0"
edition = "2021"
publish = false

[dependencies]
serde_json = "=1.0.154"
sha2 = "=0.10.9"
wasmtime = { version = "=42.0.2", default-features = false, features = ["cranelift", "runtime", "std", "component-model", "wat"] }
serde = { version = "1", features = ["derive"] }
toml = "0.8"
anyhow = "1"
thiserror = "2"
tracing = "0.1"
tokio = { version = "1", features = ["rt-multi-thread", "macros", "sync", "time", "io-util", "io-std", "fs"] }
tokio-stream = { version = "0.1", features = ["sync"] }
axum = { version = "0.8", default-features = false, features = ["json", "query", "tokio"] }
reqwest = { version = "0.12", default-features = false, features = ["json"] }
sqlx = { version = "0.8", default-features = false, features = ["runtime-tokio", "postgres"] }
libsql = { version = "0.9", default-features = false, features = ["core"] }
