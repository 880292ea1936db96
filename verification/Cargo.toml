[package]
name = "fp_bindgen"
version = "0.1.0"
edition = "2021"
publish = false

[dependencies]
Inflector = "=0.11.4"
syn = { version = "=1.0.109", features = ["full", "extra-traits"] }
quote = "=1.0.47"
proc-macro2 = "=1.0.107"
serde = { version = "=1.0.229", features = ["derive"] }
rmp-serde = "=1.3.1"
serde_bytes = "=0.11.19"
serde_path_to_error = "=0.1.20"
thiserror = "=1.0.69"
once_cell = "=1.21.4"
bytemuck = { version = "=1.25.2", features = ["derive"] }
bytes = "1"
http = "0.2"
time = "0.3"
serde_json = "1"
url = "2"
