[package]
name = "cucumber_core"
version = "0.1.0"
edition = "2021"
publish = false

[dependencies]
regex = "1"
gherkin = "*"
futures = "0.3"
futures-timer = "*"
shh = "*"
async-trait = "*"
