[package]
name = "biscuit"
version = "0.1.0"
edition = "2021"
publish = false

[dependencies]
anyhow = "1"
base64 = "=0.22.1"
boa_engine = "=0.22.0"
boa_gc = "=0.22.0"
boa_runtime = "=0.22.0"
dotenv-parser = "*"
is_main_thread = "=0.1.0"
log = "=0.4.34"
protoshark = "=2.0.0"
rsa = "=0.9.10"
serde = { version = "1", features = ["derive"] }

[dev-dependencies]
rand = "=0.8.8"
