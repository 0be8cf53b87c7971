[package]
name = "mboitata"
version = "0.1.0"
edition = "2021"
publish = false

[dependencies]
sanitize-filename = "*"
flate2 = "*"
brotli = "*"
regex = "*"
url = "*"
sourcemap = "*"
rcgen = { version = "*", default-features = false, features = ["crypto", "pem", "ring", "x509-parser"] }
rustls = { version = "*", default-features = false, features = ["ring", "logging", "std", "tls12"] }
rustls-pki-types = "*"
tokio = { version = "*", features = ["full"] }
hyper = { version = "*", features = ["full"] }
hyper-util = { version = "*", features = ["full"] }
http-body-util = "*"
tokio-rustls = { version = "*", default-features = false, features = ["ring", "logging", "tls12"] }
webpki-roots = "*"
reqwest = { version = "*", default-features = false, features = ["rustls-tls"] }
anyhow = "*"
async-trait = "*"
clap = { version = "*", features = ["derive", "env"] }
headless_chrome = "*"
swc_common = "*"
swc_ecma_ast = "*"
swc_ecma_parser = "*"
swc_ecma_visit = "*"
