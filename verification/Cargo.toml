[package]
name = "dr_metrix"
version = "0.1.0"
edition = "2021"
publish = false

[dependencies]
prometheus = { version = "0.13", features = ["process"] }
serde_json = "1"
thiserror = "1"
async-trait = "0.1"
tokio = { version = "1", features = ["rt-multi-thread", "macros", "time"] }
tracing = "0.1"
axum = "0.7"
tower = "0.5"
http = "1"
bson = "2"
mongodb = "3"
fred = "10"
diesel = { version = "2", default-features = false, features = ["postgres", "r2d2"] }
deadpool-diesel = { version = "0.6", features = ["postgres"] }
sea-orm = { version = "1", default-features = false, features = ["sqlx-postgres", "runtime-tokio-rustls"] }
