[package]
name = "zero2prod"
version = "0.1.0"
edition = "2021"
publish = false

[dependencies]
secrecy = { version = "0.10", features = ["serde"] }
serde = { version = "1", features = ["derive"] }
config = { version = "0.15", default-features = false, features = ["yaml"] }
actix-web = { version = "4", default-features = false, features = ["macros"] }
actix-web-validation = { version = "*", features = ["validator"] }
validator = { version = "*", features = ["derive"] }
diesel = { version = "2", features = ["postgres", "chrono", "uuid"] }
deadpool = "0.12"
deadpool-diesel = { version = "0.6", features = ["postgres"] }
tokio = { version = "1", features = ["macros", "rt-multi-thread"] }
tracing = "0.1"
tracing-actix-web = "0.7"
tracing-bunyan-formatter = "0.3"
tracing-log = "0.2"
tracing-subscriber = { version = "0.3", features = ["env-filter", "registry"] }
chrono = { version = "0.4", features = ["serde"] }
uuid = { version = "1", features = ["v4", "serde"] }
