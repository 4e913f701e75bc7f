[package]
name = "pubmed_norm"
version = "0.1.0"
edition = "2021"
publish = false

[dependencies]
serde = { version = "*", features = ["derive"] }
serde_json = "*"
serde_path_to_error = "*"
quick-xml = { version = "*", features = ["serialize"] }
rayon = "*"
