[package]
name = "krampus"
version = "0.1.0"
edition = "2021"
publish = false

[dependencies]
rand = "0.8"
csv = "*"
docopt = "*"
handlebars = "*"
lettre = { version = "*", default-features = false, features = ["builder", "smtp-transport"] }
serde = { version = "*", features = ["derive"] }
serde_derive = "*"
