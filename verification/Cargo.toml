[package]
name = "mijia_bridge"
version = "0.1.0"
edition = "2021"
publish = false

[dependencies]
blurz = "*"
color-backtrace = "*"
dotenv = "*"
futures = "*"
homie = "*"
log = "*"
mijia = "*"
pretty_env_logger = "*"
rumqttc = "*"
rustls = "*"
rustls-native-certs = "*"
tokio = { version = "*", features = ["full"] }
