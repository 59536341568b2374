[package]
name = "entity_id"
version = "0.1.0"
edition = "2021"
publish = false

[dependencies]
uuid = { version = "1", features = ["v7", "serde"] }
prost = { version = "*", default-features = false, features = ["std"] }
sea-orm = { version = "*", default-features = false, features = ["with-uuid"] }
serde = { version = "1", features = ["derive"] }
thiserror = "*"
derive_more = { version = "*", features = ["as_ref", "deref"] }
