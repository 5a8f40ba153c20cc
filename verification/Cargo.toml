[package]
name = "sql_connector"
version = "0.1.0"
edition = "2021"
publish = false

[dependencies]
async-trait = "=0.1.92"
base64 = "=0.22.1"
bytes = "=1.12.1"
chrono = { version = "=0.4.45", default-features = false, features = ["std", "clock"] }
connection-string = "=0.2.0"
deadpool-oracle = "=0.1.1"
deadpool-postgres = "=0.14.2"
futures-util = { version = "=0.3.34", default-features = false, features = ["std"] }
graphql-parser = "=0.4.1"
moka = { version = "=0.12.16", features = ["sync"] }
mysql_async = { version = "=0.36.2", default-features = false, features = ["default-rustls-ring"] }
oracle-rs = "=0.1.7"
postgres-types = { version = "=0.2.14", features = ["with-chrono-0_4", "with-serde_json-1", "with-uuid-1"] }
reqwest = { version = "=0.12.28", default-features = false, features = ["json", "rustls-tls-webpki-roots-no-provider", "stream"] }
rustls = { version = "=0.23.46", default-features = false, features = ["ring", "std", "tls12", "logging"] }
rustls-pemfile = "=2.2.0"
serde = { version = "=1.0.229", features = ["derive"] }
serde_json = "=1.0.154"
sqlparser = { version = "=0.63.0", features = ["visitor"] }
tiberius = { version = "=0.12.3", default-features = false, features = ["chrono", "rustls", "tds73"] }
tokio = { version = "=1.54.1", features = ["full"] }
tokio-postgres = { version = "=0.7.18", features = ["with-chrono-0_4", "with-serde_json-1", "with-uuid-1"] }
tokio-postgres-rustls = "=0.13.0"
tokio-util = { version = "=0.7.20", features = ["compat", "rt"] }
url = "=2.5.8"
uuid = { version = "=1.29.0", features = ["v4"] }
webpki-roots = "=1.0.10"
zeroize = "=1.9.1"
