[package]
name = "eagre_asn1"
version = "0.1.0"
edition = "2021"
publish = false
