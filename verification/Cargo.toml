[package]
name = "my_rust_shinobi"
version = "0.1.0"
edition = "2021"
publish = false

[dependencies]
uuid = { version = "1", features = ["v4", "serde"] }
chrono = { version = "0.4", features = ["serde"] }
serde = { version = "1", features = ["derive"] }
serde_json = "1"
sqlx = { version = "0.8", default-features = false, features = ["runtime-tokio", "postgres", "uuid", "chrono", "json", "derive", "migrate"] }
tokio = { version = "1", features = ["rt-multi-thread", "macros", "net"] }
axum = "*"
leptos = { version = "*", features = ["ssr"] }
leptos_axum = "*"
leptos_meta = { version = "*", features = ["ssr"] }
leptos_router = { version = "*", features = ["ssr"] }
dotenvy = "0.15"
