[package]
name = "rustberg"
version = "0.1.0"
edition = "2021"
publish = false

[dependencies]
apache-avro = "*"
serde_json = "1"
thrift = "0.17"
uuid = "1"

[dev-dependencies]
regex = "1"
