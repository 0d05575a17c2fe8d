[package]
name = "xgboost_udf"
version = "0.1.0"
edition = "2021"
publish = false

[dependencies]
arrow-array = "=48.0.1"
arrow-schema = "=48.0.1"

[dev-dependencies]
arrow-cast = { version = "=48.0.1", features = ["prettyprint"] }
