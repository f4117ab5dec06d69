[package]
name = "sapiens"
version = "0.1.0"
edition = "2021"
publish = false

[dependencies]
async-openai = "=0.10.3"
colored = "2"
convert_case = "=0.6.0"
dotenvy = "0.15"
huelib = "0.13"
llm-chain = { version = "=0.8.3", default-features = false }
pyo3 = { version = "=0.18.3", features = ["auto-initialize"] }
pyo3-asyncio = { version = "0.18", features = ["tokio-runtime", "attributes"] }
regex = "=1.13.1"
serde = { version = "=1.0.229", features = ["derive"] }
serde_yaml = "=0.9.34"
serenity = { version = "=0.11.7", default-features = false, features = ["client", "gateway", "rustls_backend", "model", "cache"] }
thiserror = "=1.0.69"
tiktoken-rs = { version = "=0.4.5", features = ["async-openai"] }
tokio = { version = "=1.54.1", features = ["macros", "rt-multi-thread"] }
tracing = "=0.1.44"
tracing-subscriber = { version = "0.3", default-features = false, features = ["fmt"] }
