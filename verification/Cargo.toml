[package]
name = "mdbook-typst-math"
version = "0.1.0"
edition = "2021"
publish = false

[dependencies]
anyhow = "1"
clap = { version = "4", default-features = false, features = ["derive", "error-context", "help", "std", "usage"] }
codespan-reporting = "0.13"
flate2 = "1"
fontdb = "0.23"
mdbook-preprocessor = "0.5"
pulldown-cmark = { version = "0.13", default-features = false }
reqwest = { version = "0.12", default-features = false, features = ["blocking", "rustls-tls"] }
serde = { version = "1", features = ["derive"] }
serde_json = "1"
tar = "0.4"
time = { version = "0.3", features = ["local-offset"] }
tracing = "0.1"
tracing-subscriber = { version = "0.3", default-features = false, features = ["ansi", "env-filter", "fmt", "std"] }
typst = "0.14"
typst-svg = "0.14"
