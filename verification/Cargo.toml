[package]
name = "dyn_wall"
version = "0.1.0"
edition = "2021"
publish = false

[dependencies]
alphanumeric-sort = "*"
chrono = "0.4"
clokwerk = "*"
dirs-next = "*"
run_script = "*"
serde = { version = "1", features = ["derive"] }
structopt = "0.3"
sun-times = "*"
toml = "0.5"
unicase = "2"
walkdir = "2"
