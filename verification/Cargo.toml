[package]
name = "ha_gpio_mqtt"
version = "0.1.0"
edition = "2021"
publish = false

[dependencies]
clap = { version = "=4.6.7", features = ["derive"] }
ctrlc = "=3.5.2"
env_logger = "=0.11.11"
log = "=0.4.34"
rppal = "=0.18.0"
rumqttc = "=0.25.1"
serde = { version = "=1.0.229", features = ["derive"] }
serde_json = "=1.0.154"
serde_yaml = "=0.9.34"
signal-hook = "=0.4.5"
