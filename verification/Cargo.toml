[package]
name = "deck_metrics"
version = "0.1.0"
edition = "2021"
publish = false

[dependencies]
anyhow = "=1.0.104"
chrono = { version = "=0.4.45", features = ["serde"] }
diesel = { version = "2", features = ["postgres", "chrono"] }
djangohashers = "=1.8.4"
reqwest = { version = "0.11", features = ["blocking", "json"] }
rocket = { version = "0.5", features = ["json", "secrets"] }
rocket_dyn_templates = { version = "0.2", features = ["handlebars"] }
rocket_sync_db_pools = { version = "0.1", features = ["diesel_postgres_pool"] }
serde = { version = "=1.0.229", features = ["derive"] }
serde_derive = "=1.0.229"
serde_json = "=1.0.154"
