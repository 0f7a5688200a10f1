[package]
name = "weather_chart"
version = "0.1.0"
edition = "2021"
publish = false

[dependencies]
chrono = "0.4"
plotters = { version = "0.3", default-features = false, features = ["svg_backend", "bitmap_backend", "bitmap_encoder", "datetime", "line_series", "point_series"] }
sqlx = { version = "0.8", default-features = false, features = ["mysql", "runtime-tokio"] }
tokio = { version = "1", features = ["macros", "rt-multi-thread"] }
inquire = "0.7"
colorize = "0.1"
dotenvy = "0.15"
env_logger = "0.11"
log = "0.4"
execute = "0.2"
