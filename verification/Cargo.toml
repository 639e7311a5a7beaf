[package]
name = "clir_rs"
version = "0.1.0"
edition = "2021"
publish = false

[dependencies]
ansi_colours = "=1.2.3"
ansi_term = "=0.12.1"
anyhow = "=1.0.104"
argh = "=0.1.19"
image = "=0.24.9"
is-url = "=1.0.4"
reqwest = { version = "=0.11.27", features = ["blocking"] }
shellexpand = "=3.1.2"
termsize = "=0.1.9"
