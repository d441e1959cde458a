[package]
name = "rms_check"
version = "0.1.0"
edition = "2021"
publish = false

[dependencies]
strsim = "=0.10.0"
chardet = "=0.2.4"
encoding_rs = "=0.8.44"
zip = { version = "=0.5.13", default-features = false, features = ["deflate"] }
structopt = "=0.3.26"
anyhow = "=1.0.104"
ansi_term = "=0.12.1"
termcolor = "=1.4.1"
codespan-reporting = "=0.9.5"
multisplice = "=0.3.0"
notify = "=4.0.18"
cow-utils = "=0.1.3"
serde = "1"
serde_json = "1"
jsonrpc-core = "14"
lsp-types = "0.74"
