[package]
name = "todo_web"
version = "0.1.0"
edition = "2021"
publish = false

[dependencies]
actix-web = "*"
actix-rt = "*"
r2d2 = "*"
r2d2_sqlite = "*"
rusqlite = { version = "*", features = ["bundled"] }
thiserror = "*"
