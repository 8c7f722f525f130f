[package]
name = "timr"
version = "0.1.0"
edition = "2021"
publish = false

[dependencies]
piechart = "*"
colored = "*"
color-print = "*"
speedate = "*"
terminal-menu = "*"
dotenv = "*"
serde = { version = "1", features = ["derive"] }
serde_derive = "1"
serde_json = "1"
rusqlite = { version = "*", features = ["bundled"] }
reqwest = { version = "*", default-features = false, features = ["blocking"] }
actix = "*"
actix-web = "4"
actix-cors = "*"
actix-files = "*"
actix-web-actors = "*"
