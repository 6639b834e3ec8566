[package]
name = "ill"
version = "0.1.0"
edition = "2021"
publish = false

[dependencies]
async-trait = "=0.1.92"
chrono = { version = "=0.4.45", default-features = false }
clap = { version = "=4.6.7", features = ["derive"] }
codespan-reporting = { version = "=0.13.1", features = ["termcolor"] }
indexmap = "=2.14.2"
libc = "=0.2.191"
regex = "=1.13.1"
rumqttc = { version = "=0.25.1", default-features = false }
serde_json = { version = "=1.0.154", features = ["raw_value"] }
shlex = "=1.3.0"
testcontainers = { version = "=0.28.0", default-features = false }
tokio = { version = "=1.54.1", features = ["full"] }
tokio-postgres = { version = "=0.7.18", features = ["with-chrono-0_4", "with-serde_json-1", "with-uuid-1"] }
tree-sitter = "=0.27.1"
tree-sitter-language = "=0.1.9"
uuid = "1"
