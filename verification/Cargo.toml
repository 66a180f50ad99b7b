[package]
name = "kaka_nest"
version = "0.1.0"
edition = "2021"
publish = false

[dependencies]
pulldown-cmark = "=0.13.5"
handlebars = "=6.4.4"
syntastica = "=0.6.1"
syntastica-parsers = { version = "=0.6.1", features = ["some"] }
syntastica-themes = "=0.6.1"
html-escape = "=0.3.0"
serde = { version = "=1.0.229", features = ["derive"] }
serde_json = "=1.0.154"
serde_yaml = "=0.9.34"
slugify = "=0.1.0"
clap = { version = "=4.6.7", features = ["derive"] }
color-eyre = "=0.6.5"
fs_extra = "=1.3.0"
lol_html = "=3.0.2"
rss = "=2.1.2"
tracing = "=0.1.44"
tracing-subscriber = "=0.3.23"
actix-web = "=4.18.1"
actix-files = "=0.7.2"
