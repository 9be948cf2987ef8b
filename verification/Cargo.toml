[package]
name = "oci_manifest"
version = "0.1.0"
edition = "2021"
publish = false

[dependencies]
bytes = "1"
serde_json = "1"
sha2 = "0.10"

[dev-dependencies]
bytes = "1"
serde_json = "1"
sha2 = "0.10"
