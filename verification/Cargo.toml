[package]
name = "vectorstore"
version = "0.1.0"
edition = "2021"
publish = false

[dependencies]
async-trait = "0.1"
firestore-db-and-auth = "*"
serde = { version = "1", features = ["derive"] }
serde_json = "1"
