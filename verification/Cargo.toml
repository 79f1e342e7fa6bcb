[package]
name = "todomvc"
version = "0.1.0"
edition = "2021"
publish = false

[dependencies]
axum = "=0.8.9"
tokio = { version = "=1.54.1", features = ["macros", "rt-multi-thread", "net", "sync"] }
sqlx = { version = "=0.8.6", default-features = false, features = ["runtime-tokio", "sqlite"] }
tower-http = { version = "=0.6.11", features = ["fs"] }
tracing = "=0.1.44"
tracing-subscriber = { version = "=0.3.23", features = ["env-filter"] }
serde = { version = "=1.0.229", features = ["derive"] }
leptos = { version = "=0.7.8", features = ["csr"] }
gloo-net = { version = "=0.6.0", default-features = false, features = ["http", "json"] }
web-sys = { version = "=0.3.107", features = ["KeyboardEvent"] }
wasm-bindgen = "=0.2.130"
