[package]
name = "erc1155_ledger"
version = "0.1.0"
edition = "2021"
publish = false

[dependencies]
base64 = "=0.13.1"
casper-types = "=1.5.0"
