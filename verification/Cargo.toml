[package]
name = "brazilian_validators"
version = "0.1.0"
edition = "2021"
publish = false

[dependencies]
serde = "1"
thiserror = "*"
async-graphql = "*"
