[package]
name = "raytracer"
version = "0.1.0"
edition = "2021"
publish = false

[dependencies]
png = "0.18"
glam = "0.29"
quick-xml = { version = "0.37", features = ["serialize"] }
serde = { version = "1", features = ["derive"] }
serde_path_to_error = "0.1"
thiserror = "2"
tobj = "4"
rand = "0.9"
rayon = "1"
clap = { version = "4", features = ["derive"] }
derive_more = { version = "2", features = ["from"] }
static_assertions = "1"
