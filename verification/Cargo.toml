[package]
name = "r1cs_bool"
version = "0.1.0"
edition = "2021"
publish = false

[dependencies]
ark-ff = "=0.4.2"
ark-relations = "=0.4.0"
ark-test-curves = { version = "=0.4.2", features = ["bls12_381_scalar_field"] }
