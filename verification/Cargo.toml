[package]
name = "postscrape"
version = "0.1.0"
edition = "2021"
publish = false

[dependencies]
scraper = "*"
url = "*"
clearurls = "*"

[dev-dependencies]
serde_json = "*"
