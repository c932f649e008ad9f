[package]
name = "simple_site"
version = "0.1.0"
edition = "2021"
publish = false

[dependencies]
comrak = "=0.44.0"
katex = "=0.4.6"
minify-html = "=0.16.5"
serde_json = "=1.0.151"
serde_yaml = "=0.9.34"
toml = "=1.1.7"
color-print = "=0.3.7"
notify = "=8.2.0"
rouille = "=3.6.2"
simple-websockets = "=0.1.6"
rayon = "=1.12.0"
