[package]
name = "aionui_steward"
version = "0.1.0"
edition = "2021"
publish = false

[dependencies]
agent-client-protocol = "=5.0.0"
async-trait = "=0.1.92"
axum = "=0.8.9"
dirs = "=7.0.0"
dunce = "=1.0.5"
futures-util = "=0.3.34"
git2 = { version = "=0.21.0", default-features = false }
hex = "=0.4.3"
reqwest = { version = "=0.12.28", default-features = false, features = ["json"] }
rmcp = { version = "=3.8.0", features = ["server", "transport-io"] }
serde = { version = "=1.0.229", features = ["derive"] }
serde_json = { version = "=1.0.154", features = ["preserve_order"] }
sha2 = "=0.10.9"
sqlx = { version = "=0.8.6", default-features = false, features = ["macros", "runtime-tokio", "sqlite"] }
tokio = { version = "=1.54.1", features = ["full"] }
tracing = "=0.1.44"
