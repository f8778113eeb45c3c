[package]
name = "galileo_maplibre"
version = "0.1.0"
edition = "2021"
publish = false

[dependencies]
csscolorparser = "=0.9.0"
serde = { version = "=1.0.229", features = ["derive"] }
serde_json = "=1.0.154"
serde_ignored = "=0.1.14"
log = "=0.4.35"
ordered-float = "=5.5.1"
ordered_hash_map = "*"
